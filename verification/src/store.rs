use crate::text::{
    all_digits, char_is_ascii_alphanumeric, decimal_digits, is_ascii_alphanumeric, lemma_strip_both_shape,
    lemma_strip_both_unchanged, push_char, six_digits, strip_both, trim_matches, zero_padded,
};
use vstd::prelude::*;

verus! {

/// A character that may stand in a saved file's name: ASCII letters and digits,
/// `.`, `_` and `-` are kept, anything else becomes `_`.
pub open spec fn safe_char(c: char) -> char {
    if is_ascii_alphanumeric(c) || c == '.' || c == '_' || c == '-' {
        c
    } else {
        '_'
    }
}

/// A name made safe for a file: each character through `safe_char`, then `_`
/// trimmed from both ends; `"image"` where nothing is left.
pub open spec fn sanitized(name: Seq<char>) -> Seq<char> {
    let t = strip_both(name.map_values(|c: char| safe_char(c)), |c: char| c == '_');
    if t.len() == 0 {
        "image"@
    } else {
        t
    }
}

/// The characters a sanitized name is made of.
pub open spec fn is_safe_char(c: char) -> bool {
    is_ascii_alphanumeric(c) || c == '.' || c == '_' || c == '-'
}

/// Saved file names are safe: a sanitized name is never empty, holds only ASCII
/// letters and digits, `.`, `_` and `-`, neither starts nor ends with `_`, and
/// sanitizing it again changes nothing.
pub proof fn law_sanitized_names_are_safe(name: Seq<char>)
    ensures
        sanitized(name).len() > 0,
        forall|i: int| 0 <= i < sanitized(name).len() ==> is_safe_char(#[trigger] sanitized(name)[i]),
        sanitized(name)[0] != '_',
        sanitized(name).last() != '_',
        sanitized(sanitized(name)) == sanitized(name),
{
    reveal_strlit("image");
    let m = name.map_values(|c: char| safe_char(c));
    let p = |c: char| c == '_';
    let t = strip_both(m, p);
    lemma_strip_both_shape(m, p);
    let (a, b) = choose|a: int, b: int| 0 <= a <= b <= m.len() && t == m.subrange(a, b);
    assert forall|i: int| 0 <= i < t.len() implies is_safe_char(#[trigger] t[i]) by {
        assert(t[i] == m[a + i]);
    }
    let r = sanitized(name);
    assert forall|i: int| 0 <= i < r.len() implies is_safe_char(#[trigger] r[i]) by {
        if t.len() == 0 {
            assert(r == "image"@);
        }
    }
    let m2 = r.map_values(|c: char| safe_char(c));
    assert(m2 == r);
    lemma_strip_both_unchanged(r, p);
}

/// Safe characters are kept in place: a name made only of ASCII letters and digits,
/// `.`, `-` and `_`, that neither starts nor ends with `_`, is its own sanitized form.
pub proof fn law_safe_names_unchanged(name: Seq<char>)
    requires
        name.len() > 0,
        forall|i: int|
            0 <= i < name.len() ==> {
                let c = #[trigger] name[i];
                ||| 'a' <= c <= 'z'
                ||| 'A' <= c <= 'Z'
                ||| '0' <= c <= '9'
                ||| c == '.'
                ||| c == '-'
                ||| c == '_'
            },
        name[0] != '_',
        name.last() != '_',
    ensures
        sanitized(name) == name,
{
    let m = name.map_values(|c: char| safe_char(c));
    assert forall|i: int| 0 <= i < name.len() implies m[i] == name[i] by {
        let c = name[i];
        assert(safe_char(c) == c);
    }
    assert(m == name);
    lemma_strip_both_unchanged(name, |c: char| c == '_');
}

pub fn sanitize_name(name: &str) -> (s: String)
    ensures
        s@ == sanitized(name@),
{
    let mut clean = String::new();
    for c in it: name.chars()
        invariant
            it.seq() == name@,
            clean@ == it.seq().take(it.index()).map_values(|c: char| safe_char(c)),
    {
        let ghost done = it.seq().take(it.index());
        let keep = char_is_ascii_alphanumeric(c) || c == '.' || c == '_' || c == '-';
        push_char(&mut clean, if keep { c } else { '_' });
        assert(it.seq().take(it.index() + 1) == done.push(c));
        assert(done.push(c).map_values(|c: char| safe_char(c)) == done.map_values(
            |c: char| safe_char(c),
        ).push(safe_char(c)));
    }
    assert(name@.take(name@.len() as int) == name@);
    let trimmed = trim_matches(clean.as_str(), '_');
    if trimmed.is_empty() {
        String::from_str("image")
    } else {
        String::from_str(trimmed)
    }
}

/// `rand::thread_rng().gen_range(0..bound)`: a number below `bound`, drawn at random.
#[verifier::external_body]
fn random_below(bound: u32) -> (r: u32)
    requires
        bound > 0,
    ensures
        r < bound,
{
    rand::Rng::gen_range(&mut rand::thread_rng(), 0..bound)
}

/// Whether a text is a PIN: six ASCII digits.
pub open spec fn is_pin(s: Seq<char>) -> bool {
    s.len() == 6 && all_digits(s)
}

/// A new six-digit PIN, drawn at random.
pub fn new_pin() -> (pin: String)
    ensures
        is_pin(pin@),
        exists|n: nat| n < 1_000_000 && pin@ == zero_padded(decimal_digits(n), 6),
{
    let n = random_below(1_000_000);
    six_digits(n)
}

/// Whether a text is a PIN (six ASCII digits).
pub fn is_pin_text(s: &str) -> (b: bool)
    ensures
        b == is_pin(s@),
{
    if s.unicode_len() != 6 {
        return false;
    }
    for c in it: s.chars()
        invariant
            it.seq() == s@,
            forall|j: int| 0 <= j < it.index() ==> '0' <= #[trigger] s@[j] <= '9',
    {
        if !('0' <= c && c <= '9') {
            return false;
        }
    }
    true
}

/// The configuration text that stores a PIN: `{"pin":"<pin>"}`.
pub open spec fn pin_config(pin: Seq<char>) -> Seq<char> {
    "{\"pin\":\""@ + pin + "\"}"@
}

/// What `serde_json` reads as the `"pin"` string of the text: `None` where the text
/// is not JSON or its `"pin"` is missing or not a string.
pub uninterp spec fn json_pin(text: Seq<char>) -> Option<Seq<char>>;

/// `serde_json::from_str::<serde_json::Value>(text)` and then `["pin"].as_str()`:
/// the string is the named one, and `None` comes exactly where that is `None`. A text
/// `{"pin":"<d>"}` with six ASCII digits `d` (nothing in it to escape) is a JSON object
/// whose `"pin"` is the string `d`.
#[verifier::external_body]
fn stored_pin(text: &str) -> (p: Option<String>)
    ensures
        match p {
            Some(s) => json_pin(text@) == Some(s@),
            None => json_pin(text@) is None,
        },
        p is None ==> forall|d: Seq<char>| #[trigger] is_pin(d) ==> text@ != pin_config(d),
        p matches Some(s) ==> forall|d: Seq<char>| #[trigger] is_pin(d) && text@ == pin_config(d) ==> s@ == d,
{
    match serde_json::from_str::<serde_json::Value>(text) {
        Ok(v) => match v["pin"].as_str() {
            Some(s) => Some(s.to_string()),
            None => None,
        },
        Err(_) => None,
    }
}

/// The PIN to use given the stored configuration text (`None` where there is none)
/// and a freshly drawn PIN: the stored PIN where the configuration holds one of six
/// digits, and nothing to write; else the fresh PIN, to be written. A PIN stored with
/// `config_text` is read back unchanged, so the PIN stays the same across runs.
pub fn pin_from_config(config: Option<String>, fresh: String) -> (r: (String, bool))
    ensures
        match config {
            Some(text) => match json_pin(text@) {
                Some(p) => if is_pin(p) {
                    r.0@ == p && !r.1
                } else {
                    r.0 == fresh && r.1
                },
                None => r.0 == fresh && r.1,
            },
            None => r.0 == fresh && r.1,
        },
        forall|d: Seq<char>| #[trigger] is_pin(d) && (config matches Some(t) && t@ == pin_config(d)) ==> (r.0@ == d
            && !r.1),
{
    match config {
        Some(text) => match stored_pin(text.as_str()) {
            Some(p) => {
                if is_pin_text(p.as_str()) {
                    (p, false)
                } else {
                    (fresh, true)
                }
            },
            None => (fresh, true),
        },
        None => (fresh, true),
    }
}

/// The configuration file's text for a PIN: `{"pin":"<pin>"}`.
pub fn config_text(pin: &str) -> (s: String)
    requires
        is_pin(pin@),
    ensures
        s@ == pin_config(pin@),
{
    let mut s = String::from_str("{\"pin\":\"");
    s.append(pin);
    s.append("\"}");
    s
}

} // verus!
