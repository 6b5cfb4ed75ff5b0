//! The companion proof-of-concept document: the finished container,
//! re-encoded for text-safe transport and wrapped in a fixed markup template
//! as a data-URI payload.

use vstd::prelude::*;

use base64::Engine;

verus! {

/// The text-safe transport encoding of a byte sequence that
/// `base64::engine::Engine::encode` produces with the standard alphabet and
/// padding: a function of the input bytes alone.
pub uninterp spec fn base64_of(s: Seq<u8>) -> Seq<char>;

/// Relies on `base64::engine::Engine::encode` with
/// `base64::prelude::BASE64_STANDARD`: standard-alphabet, padded encoding,
/// determined by the input bytes alone.
#[verifier::external_body]
fn encode_png_to_base64(png_data: &[u8]) -> (r: String)
    ensures
        r@ == base64_of(png_data@),
{
    base64::prelude::BASE64_STANDARD.encode(png_data)
}

/// The markup that stands before the encoded container.
pub open spec fn html_prefix() -> Seq<char> {
    "<html>\n<head>\n    <title>PNG PoC</title>\n</head>\n<body>\n    <object data=\"data:text/html;base64,"@
}

/// The markup that stands after the encoded container.
pub open spec fn html_suffix() -> Seq<char> {
    "\"></object>\n</body>\n</html>"@
}

/// Wraps an already-encoded container in the fixed markup template.
pub fn generate_html_poc(base64_png: &str) -> (r: String)
    ensures
        r@ == html_prefix() + base64_png@ + html_suffix(),
{
    let mut out = String::new();
    out.append(
        "<html>\n<head>\n    <title>PNG PoC</title>\n</head>\n<body>\n    <object data=\"data:text/html;base64,",
    );
    out.append(base64_png);
    out.append("\"></object>\n</body>\n</html>");
    out
}

/// Renders the whole companion document for a finished container: the
/// container bytes, transport-encoded, inside the markup template.
pub fn render_poc_document(png_data: &[u8]) -> (r: String)
    ensures
        r@ == html_prefix() + base64_of(png_data@) + html_suffix(),
{
    let base64_png = encode_png_to_base64(png_data);
    generate_html_poc(base64_png.as_str())
}

} // verus!
