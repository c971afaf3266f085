use crate::text::{join, joined, lemma_scan_lines_rejoin, lines_of, scan_lines, split_lines, views};
use vstd::prelude::*;

verus! {

/// The pairing payload that the phone scans, e.g.
/// `sender://pair?host=192.168.1.20:8787&pin=123456`.
pub fn pair_url(host_with_port: &str, pin: &str) -> (url: String)
    ensures
        url@ == "sender://pair?host="@ + host_with_port@ + "&pin="@ + pin@,
{
    let mut url = String::from_str("sender://pair?host=");
    url.append(host_with_port);
    url.append("&pin=");
    url.append(pin);
    url
}

#[verifier::external_type_specification]
#[verifier::external_body]
pub struct ExQrError(qrcode::types::QrError);

/// What `qrcode` draws for the payload's bytes at error-correction level M, with
/// the `Dense1x2` renderer (two modules per character), quiet zone on and 1x1
/// modules; `None` where the payload does not fit in a QR code.
pub uninterp spec fn qr_dense_rendering(payload: Seq<char>) -> Option<Seq<char>>;

/// `QrCode::with_error_correction_level(payload, EcLevel::M)` and, on success,
/// `render::<Dense1x2>().quiet_zone(true).module_dimensions(1, 1).build()`: the text is
/// the named rendering, and an error comes exactly where that is `None`.
#[verifier::external_body]
fn render_qr(payload: &str) -> (r: Result<String, qrcode::types::QrError>)
    ensures
        match r {
            Ok(s) => qr_dense_rendering(payload@) == Some(s@),
            Err(_) => qr_dense_rendering(payload@) is None,
        },
{
    match qrcode::QrCode::with_error_correction_level(payload.as_bytes(), qrcode::EcLevel::M) {
        Ok(code) => Ok(
            code.render::<qrcode::render::unicode::Dense1x2>().quiet_zone(true).module_dimensions(
                1,
                1,
            ).build(),
        ),
        Err(e) => Err(e),
    }
}

/// The rows shown for a payload: the lines of its QR drawing, or the payload itself
/// where it does not fit in a QR code.
pub open spec fn qr_rows(payload: Seq<char>, rendering: Option<Seq<char>>) -> Seq<Seq<char>> {
    match rendering {
        Some(s) => lines_of(s),
        None => seq![payload],
    }
}

/// The rows are the drawing itself: joined again by newlines they give back the QR
/// drawing character for character (all but a final line ending, which `lines`
/// drops), for any drawing without carriage returns; with no drawing the one row is
/// the payload.
pub proof fn law_qr_rows_are_the_drawing(payload: Seq<char>, drawing: Seq<char>)
    requires
        forall|i: int| 0 <= i < drawing.len() ==> drawing[i] != '\r',
    ensures
        drawing.len() > 0 && drawing.last() == '\n' ==> joined(qr_rows(payload, Some(drawing)), "\n"@)
            + "\n"@ == drawing,
        !(drawing.len() > 0 && drawing.last() == '\n') ==> joined(
            qr_rows(payload, Some(drawing)),
            "\n"@,
        ) == drawing,
        qr_rows(payload, None) == seq![payload],
{
    reveal_strlit("\n");
    lemma_scan_lines_rejoin(drawing);
    let (done, cur) = scan_lines(drawing);
    let parts = done.push(cur);
    if drawing.len() > 0 && drawing.last() == '\n' {
        assert(cur.len() == 0);
        assert(done.len() > 0);
        assert(parts.drop_last() == done);
        assert(joined(done, "\n"@) + "\n"@ + cur == drawing);
        assert(joined(done, "\n"@) + "\n"@ + cur == joined(done, "\n"@) + "\n"@);
    } else if drawing.len() > 0 {
        assert(cur.len() > 0);
    } else {
        assert(cur.len() == 0 && done.len() == 0);
    }
}

/// The rows shown for a payload given its QR drawing (`None` where there is none).
pub fn rows_for(payload: &str, rendering: Option<&str>) -> (rows: Vec<String>)
    ensures
        views(rows@) == qr_rows(payload@, match rendering {
            Some(s) => Some(s@),
            None => None,
        }),
{
    match rendering {
        Some(s) => split_lines(s),
        None => {
            let mut rows: Vec<String> = Vec::new();
            rows.push(String::from_str(payload));
            assert(views(rows@) == seq![payload@]);
            rows
        },
    }
}

/// The payload as terminal rows of half-block characters (two QR modules per
/// character), uncoloured; the payload itself where it does not fit in a QR code.
pub fn qr_lines(payload: &str) -> (rows: Vec<String>)
    ensures
        views(rows@) == qr_rows(payload@, qr_dense_rendering(payload@)),
{
    match render_qr(payload) {
        Ok(s) => rows_for(payload, Some(s.as_str())),
        Err(_) => rows_for(payload, None),
    }
}

/// The same rows as `qr_lines`, joined by newlines into one printable block.
pub fn qr_text(payload: &str) -> (text: String)
    ensures
        text@ == joined(qr_rows(payload@, qr_dense_rendering(payload@)), "\n"@),
{
    let rows = qr_lines(payload);
    join(&rows, "\n")
}

} // verus!
