//! Handling of the list HTML that the capture script reports.

use vstd::prelude::*;
use crate::model::{item_views, ParsedItem};
use vstd::utf8::encode_utf8;
use crate::parser::{html_scannable, parse_list_html, spec_parse_list_html, spec_validate_list_url, validate_list_url};

verus! {

broadcast use vstd::string::group_string_axioms;

/// The largest captured page, in bytes, that is parsed.
pub const MAX_CAPTURE_HTML: usize = 20 * 1024 * 1024;

/// The fields of a `bili://capture-html` payload as read from its JSON: each
/// is `Some` when the payload is an object holding that key with a text
/// value.
pub struct CaptureHtmlFields {
    pub source_url: Option<String>,
    pub request_id: Option<String>,
    pub list_title: Option<String>,
    pub error: Option<String>,
    pub html: Option<String>,
}

/// The parse result sent to the interface.
#[derive(Debug, Clone, PartialEq)]
pub struct ParseResultPayload {
    pub request_id: String,
    pub source_url: String,
    pub items: Vec<ParsedItem>,
    pub list_title: Option<String>,
    pub error: Option<String>,
}

/// The length in bytes of the UTF-8 encoding of `s`.
pub open spec fn utf8_len(s: Seq<char>) -> usize {
    encode_utf8(s).len() as usize
}

/// Whether handling `f` parses its HTML: source URL and request id present,
/// the source URL accepted, no error reported, and HTML present and not
/// larger than [`MAX_CAPTURE_HTML`] bytes.
pub open spec fn capture_parses(f: CaptureHtmlFields) -> bool {
    &&& f.source_url matches Some(src)
    &&& f.request_id is Some
    &&& spec_validate_list_url(src@) is Ok
    &&& f.error is None
    &&& f.html matches Some(h)
    &&& utf8_len(h@) <= MAX_CAPTURE_HTML
}

/// What handling a capture payload gives: nothing without source URL or
/// request id, for a refused source URL, or without HTML (and no error) or
/// with HTML over the size limit; the reported error, with no items, when
/// there is one; otherwise the items parsed from the HTML. The list title is
/// passed on.
pub open spec fn spec_route_capture_html(f: CaptureHtmlFields, r: Option<ParseResultPayload>) -> bool {
    match (f.source_url, f.request_id) {
        (Some(src), Some(req)) => if spec_validate_list_url(src@) is Err {
            r is None
        } else {
            match f.error {
                Some(e) => r matches Some(p) && p.request_id@ == req@ && p.source_url@ == src@
                    && p.items@.len() == 0 && p.list_title == f.list_title && p.error == Some(e),
                None => match f.html {
                    Some(h) => if utf8_len(h@) > MAX_CAPTURE_HTML {
                        r is None
                    } else {
                        r matches Some(p) && p.request_id@ == req@ && p.source_url@ == src@
                            && item_views(p.items@) == spec_parse_list_html(src@, h@)
                            && p.list_title == f.list_title && p.error is None
                    },
                    None => r is None,
                },
            }
        },
        _ => r is None,
    }
}

/// Handles a capture payload; see [`spec_route_capture_html`].
pub fn route_capture_html(f: CaptureHtmlFields) -> (r: Option<ParseResultPayload>)
    requires
        capture_parses(f) ==> html_scannable(f.html->0@),
    ensures
        spec_route_capture_html(f, r),
{
    let ghost f0 = f;
    let CaptureHtmlFields { source_url, request_id, list_title, error, html } = f;
    let source_url = match source_url {
        Some(s) => s,
        None => return None,
    };
    let request_id = match request_id {
        Some(s) => s,
        None => return None,
    };
    if validate_list_url(source_url.as_str()).is_err() {
        return None;
    }
    if let Some(e) = error {
        return Some(ParseResultPayload {
            request_id,
            source_url,
            items: Vec::new(),
            list_title,
            error: Some(e),
        });
    }
    let html = match html {
        Some(h) => h,
        None => return None,
    };
    let byte_len = html.as_str().len();
    assert(byte_len == utf8_len(html@));
    if byte_len > MAX_CAPTURE_HTML {
        return None;
    }
    let items = parse_list_html(source_url.as_str(), html.as_str());
    Some(ParseResultPayload { request_id, source_url, items, list_title, error: None })
}

} // verus!
