//! Reading a font. Layout and rasterization work in floating point and are
//! the caller's; what is decided here is whether the font can be had at all.

use rusttype::Font;
use vstd::prelude::*;

verus! {

/// A parsed font of the `rusttype` crate. It is only handed on.
#[verifier::external_type_specification]
#[verifier::external_body]
pub struct ExFont<'a>(Font<'a>);

/// Whether `rusttype` reads the bytes as font data; of a font collection it
/// reads the first font.
pub uninterp spec fn readable_font(data: Seq<u8>) -> bool;

/// `Font::try_from_vec`: the font in the data, and `None` for invalid data.
/// Which data is valid is only named; that the answer depends on the bytes
/// alone is the crate's word and is not proved.
#[verifier::external_body]
fn font_from_vec(data: Vec<u8>) -> (font: Option<Font<'static>>)
    ensures
        font is Some <==> readable_font(data@),
{
    Font::try_from_vec(data)
}

/// The font in the bytes of a font file. Invalid data is refused with a
/// message that names the file.
pub fn load_font(font_data: Vec<u8>, font_file: &str) -> (result: Result<Font<'static>, String>)
    ensures
        result is Ok <==> readable_font(font_data@),
        result matches Err(message) ==> message@ == "can not read font "@ + font_file@,
{
    match font_from_vec(font_data) {
        Some(font) => Ok(font),
        None => {
            let mut message = String::from_str("can not read font ");
            message.append(font_file);
            Err(message)
        },
    }
}

} // verus!
