//! The normalised clipboard content and its mathematical view.

use vstd::prelude::*;
use vstd::string::StringExecFns;
use crate::codec::{base64_decode, base64_encode, base64_len, base64_bytes, base64_text, encode_png, png_encoded};
use crate::text::{occurs_at, occurs_in, split_once};

verus! {

/// What the clipboard held at one moment, reduced to one of three cases.
#[derive(Debug)]
pub enum ClipboardContent {
    /// A text payload.
    Text(String),
    /// A raster image as a self-contained data URI.
    Image(String),
    /// Neither text nor a decodable image.
    Empty,
}

/// The value of a [`ClipboardContent`] with its strings as character sequences.
pub enum ContentView {
    Text(Seq<char>),
    Image(Seq<char>),
    Empty,
}

impl View for ClipboardContent {
    type V = ContentView;

    open spec fn view(&self) -> ContentView {
        match self {
            ClipboardContent::Text(t) => ContentView::Text(t@),
            ClipboardContent::Image(uri) => ContentView::Image(uri@),
            ClipboardContent::Empty => ContentView::Empty,
        }
    }
}

impl PartialEq for ClipboardContent {
    /// Structural equality: the same case, and for text and images the same
    /// characters.
    fn eq(&self, other: &Self) -> (res: bool) {
        match self {
            ClipboardContent::Text(a) => match other {
                ClipboardContent::Text(b) => {
                    *a == *b
                },
                _ => false,
            },
            ClipboardContent::Image(a) => match other {
                ClipboardContent::Image(b) => *a == *b,
                _ => false,
            },
            ClipboardContent::Empty => match other {
                ClipboardContent::Empty => true,
                _ => false,
            },
        }
    }
}

impl vstd::std_specs::cmp::PartialEqSpecImpl for ClipboardContent {
    open spec fn obeys_eq_spec() -> bool {
        true
    }

    open spec fn eq_spec(&self, other: &Self) -> bool {
        self@ == other@
    }
}

impl Clone for ClipboardContent {
    fn clone(&self) -> (res: Self)
        ensures
            res@ == self@,
    {
        match self {
            ClipboardContent::Text(t) => ClipboardContent::Text(t.clone()),
            ClipboardContent::Image(uri) => ClipboardContent::Image(uri.clone()),
            ClipboardContent::Empty => ClipboardContent::Empty,
        }
    }
}

/// A raw image as the clipboard hands it out: rows of RGBA pixels, four
/// bytes each.
#[derive(Debug)]
pub struct RawImage {
    pub width: usize,
    pub height: usize,
    pub bytes: Vec<u8>,
}

/// The value of an optional raw image.
pub open spec fn raw_image_view(image: Option<RawImage>) -> Option<(usize, usize, Seq<u8>)> {
    match image {
        Some(i) => Some((i.width, i.height, i.bytes@)),
        None => None,
    }
}

/// The value of an optional text.
pub open spec fn text_view(text: Option<String>) -> Option<Seq<char>> {
    match text {
        Some(t) => Some(t@),
        None => None,
    }
}

/// The data URI of a PNG file with the given base64 payload.
pub open spec fn png_data_uri(payload: Seq<char>) -> Seq<char> {
    "data:image/png;base64,"@ + payload
}

/// The content that a PNG file becomes: an image with its data URI, or empty
/// where there is no file or its base64 text would be longer than a string
/// can be.
pub open spec fn png_content(png: Option<Seq<u8>>) -> ContentView {
    match png {
        Some(file) => if base64_len(file.len()) <= usize::MAX {
            ContentView::Image(png_data_uri(base64_text(file)))
        } else {
            ContentView::Empty
        },
        None => ContentView::Empty,
    }
}

/// The content that a raw image becomes. Width and height are cut down to
/// their low 32 bits.
pub open spec fn image_content(width: usize, height: usize, rgba: Seq<u8>) -> ContentView {
    png_content(png_encoded(width as u32, height as u32, rgba))
}

/// The content of a clipboard snapshot: the text if there is one, else the
/// image if it can be encoded, else empty.
pub open spec fn classified(
    text: Option<Seq<char>>,
    image: Option<(usize, usize, Seq<u8>)>,
) -> ContentView {
    match text {
        Some(t) => ContentView::Text(t),
        None => match image {
            Some((width, height, rgba)) => image_content(width, height, rgba),
            None => ContentView::Empty,
        },
    }
}

/// The place in a data URI where the marker `;base64,` first stands.
pub open spec fn marker_at(uri: Seq<char>, i: int) -> bool {
    &&& occurs_at(uri, ";base64,"@, i)
    &&& forall|j: int| 0 <= j < i ==> !occurs_at(uri, ";base64,"@, j)
}

/// The base64 payload of a data URI: all that follows the first `;base64,`,
/// or `None` where the marker does not occur.
pub open spec fn data_uri_payload(uri: Seq<char>) -> Option<Seq<char>> {
    if occurs_in(uri, ";base64,"@) {
        let i = choose|i: int| marker_at(uri, i);
        Some(uri.subrange(i + ";base64,"@.len(), uri.len() as int))
    } else {
        None
    }
}

/// The bytes that a data URI carries, or `None` where it has no base64
/// payload or the payload is no base64 text.
pub open spec fn data_uri_bytes(uri: Seq<char>) -> Option<Seq<u8>> {
    match data_uri_payload(uri) {
        Some(payload) => base64_bytes(payload),
        None => None,
    }
}

/// Wraps a base64 payload as the data URI of a PNG file.
pub fn data_uri(payload: &str) -> (res: String)
    ensures
        res@ == png_data_uri(payload@),
{
    "data:image/png;base64,".to_owned().concat(payload)
}

/// Turns an encoded PNG file, or the lack of one, into a content.
pub fn content_from_png(png: Option<Vec<u8>>) -> (res: ClipboardContent)
    ensures
        res@ == png_content(
            match png {
                Some(file) => Some(file@),
                None => None,
            },
        ),
{
    match png {
        Some(file) => {
            let groups: usize = file.len() / 3 + if file.len() % 3 == 0 {
                0
            } else {
                1
            };
            assert(groups == (file.len() + 2) / 3);
            if groups <= usize::MAX / 4 {
                let payload = base64_encode(&file);
                ClipboardContent::Image(data_uri(payload.as_str()))
            } else {
                ClipboardContent::Empty
            }
        },
        None => ClipboardContent::Empty,
    }
}

impl ClipboardContent {
    /// Normalises a raw image: encodes the pixels as PNG and wraps the file
    /// as a data URI. An image that cannot be encoded gives an empty
    /// content.
    pub fn from_image(width: usize, height: usize, bytes: &Vec<u8>) -> (res: ClipboardContent)
        ensures
            res@ == image_content(width, height, bytes@),
            bytes@.len() < 4 * (width as u32) * (height as u32) ==> res@ is Empty,
    {
        content_from_png(encode_png(width as u32, height as u32, bytes))
    }
}

/// Normalises a clipboard snapshot. Text takes priority over an image.
pub fn classify(text: Option<String>, image: Option<RawImage>) -> (res: ClipboardContent)
    ensures
        res@ == classified(text_view(text), raw_image_view(image)),
{
    match text {
        Some(t) => ClipboardContent::Text(t),
        None => match image {
            Some(i) => ClipboardContent::from_image(i.width, i.height, &i.bytes),
            None => ClipboardContent::Empty,
        },
    }
}

/// Gets the bytes out of a data URI such as `data:image/png;base64,...`.
pub fn decode_data_uri(uri: &str) -> (res: Option<Vec<u8>>)
    ensures
        match res {
            Some(bytes) => data_uri_bytes(uri@) == Some(bytes@),
            None => data_uri_bytes(uri@) is None,
        },
{
    match split_once(uri, ";base64,") {
        Some((before, payload)) => {
            proof {
                let mark = ";base64,"@;
                let at = before@.len() as int;
                assert(uri@.subrange(at, at + mark.len()) =~= mark);
                assert(marker_at(uri@, at));
                let i = choose|i: int| marker_at(uri@, i);
                assert(i == at) by {
                    if i < at {
                        assert(!occurs_at(uri@, mark, i));
                    }
                    if at < i {
                        assert(!occurs_at(uri@, mark, at));
                    }
                }
                assert(uri@.subrange(at + mark.len(), uri@.len() as int) =~= payload@);
            }
            base64_decode(payload)
        },
        None => None,
    }
}

/// The same snapshot always gives the same content.
pub proof fn lemma_classify_is_deterministic(
    text_a: Option<Seq<char>>,
    image_a: Option<(usize, usize, Seq<u8>)>,
    text_b: Option<Seq<char>>,
    image_b: Option<(usize, usize, Seq<u8>)>,
)
    requires
        text_a == text_b,
        image_a == image_b,
    ensures
        classified(text_a, image_a) == classified(text_b, image_b),
{
}

} // verus!
