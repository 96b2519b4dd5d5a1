//! The items that a clipboard can hold, and the error of an empty clipboard.

use arboard::Clipboard;
use vstd::prelude::*;
use vstd::string::StringExecFns;

use crate::text::{decimal, push_decimal, push_with_crlf, with_crlf};

verus! {

/// The error returned when the clipboard holds nothing that can be read.
#[derive(Debug, Clone, Copy, PartialEq, Eq, Structural)]
pub enum ClipboardErr {
    ClipboardEmpty,
}

impl ClipboardErr {
    /// The sentence that tells the user what went wrong.
    pub fn message(&self) -> (r: String)
        ensures
            r@ == "Clipboard is empty. Please add copy something before trying again."@,
    {
        String::from_str("Clipboard is empty. Please add copy something before trying again.")
    }
}

/// The mathematical value of a clipboard item: what two items are compared by.
pub enum ItemModel {
    Text(Seq<char>),
    Image { width: usize, height: usize, bytes: Seq<u8> },
}

/// One entry of the clipboard: a piece of text or a decoded image.
#[derive(Debug, Clone, PartialEq)]
pub enum ClipboardItem {
    Text(String),
    Image { width: usize, height: usize, bytes: Vec<u8> },
}

impl View for ClipboardItem {
    type V = ItemModel;

    open spec fn view(&self) -> ItemModel {
        match self {
            ClipboardItem::Text(s) => ItemModel::Text(s@),
            ClipboardItem::Image { width, height, bytes } => ItemModel::Image {
                width: *width,
                height: *height,
                bytes: bytes@,
            },
        }
    }
}

/// Whether two byte vectors hold the same bytes.
fn same_bytes(a: &Vec<u8>, b: &Vec<u8>) -> (r: bool)
    ensures
        r == (a@ == b@),
{
    if a.len() != b.len() {
        return false;
    }
    let n = a.len();
    let mut i: usize = 0;
    while i < n
        invariant
            n == a@.len(),
            n == b@.len(),
            i <= n,
            forall|j: int| 0 <= j < i ==> a@[j] == b@[j],
        decreases n - i,
    {
        if a[i] != b[i] {
            return false;
        }
        i = i + 1;
    }
    assert(a@ =~= b@);
    true
}

impl ClipboardItem {
    /// Whether two items are the same text, or the same image (size and pixels).
    pub fn same_as(&self, other: &ClipboardItem) -> (r: bool)
        ensures
            r == (self@ == other@),
    {
        match self {
            ClipboardItem::Text(a) => match other {
                ClipboardItem::Text(b) => *a == *b,
                ClipboardItem::Image { .. } => false,
            },
            ClipboardItem::Image { width: w1, height: h1, bytes: b1 } => match other {
                ClipboardItem::Text(_) => false,
                ClipboardItem::Image { width: w2, height: h2, bytes: b2 } => {
                    *w1 == *w2 && *h1 == *h2 && same_bytes(b1, b2)
                },
            },
        }
    }

    /// A copy of the item with the same value.
    pub fn duplicate(&self) -> (r: ClipboardItem)
        ensures
            r@ == self@,
    {
        match self {
            ClipboardItem::Text(s) => ClipboardItem::Text(s.clone()),
            ClipboardItem::Image { width, height, bytes } => ClipboardItem::Image {
                width: *width,
                height: *height,
                bytes: bytes.clone(),
            },
        }
    }
}

/// How an item is shown on its own: text with each line feed written as a
/// carriage return and a line feed, an image as its size.
pub open spec fn item_display(m: ItemModel) -> Seq<char> {
    match m {
        ItemModel::Text(s) => with_crlf(s),
        ItemModel::Image { width, height, .. } => "[Image: "@ + decimal(width as nat) + "x"@
            + decimal(height as nat) + "]"@,
    }
}

impl ClipboardItem {
    /// The item as it is shown on its own.
    pub fn to_display_string(&self) -> (r: String)
        ensures
            r@ == item_display(self@),
    {
        let mut out = String::new();
        match self {
            ClipboardItem::Text(s) => {
                push_with_crlf(&mut out, s.as_str());
                assert(out@ =~= with_crlf(s@));
            },
            ClipboardItem::Image { width, height, .. } => {
                out.append("[Image: ");
                push_decimal(&mut out, *width);
                out.append("x");
                push_decimal(&mut out, *height);
                out.append("]");
                assert(out@ =~= "[Image: "@ + decimal(*width as nat) + "x"@ + decimal(*height as nat)
                    + "]"@);
            },
        }
        out
    }
}

/// The image and the text that a clipboard offered, turned into an item: the
/// image if there is one, else the text, else the clipboard counts as empty.
pub fn item_from_reads(image: Option<(usize, usize, Vec<u8>)>, text: Option<String>) -> (r: Result<
    ClipboardItem,
    ClipboardErr,
>)
    ensures
        match image {
            Some((w, h, b)) => r matches Ok(it) && it@ == (ItemModel::Image {
                width: w,
                height: h,
                bytes: b@,
            }),
            None => match text {
                Some(t) => r matches Ok(it) && it@ == ItemModel::Text(t@),
                None => r == Err::<ClipboardItem, ClipboardErr>(ClipboardErr::ClipboardEmpty),
            },
        },
{
    match image {
        Some((width, height, bytes)) => Ok(ClipboardItem::Image { width, height, bytes }),
        None => match text {
            Some(t) => Ok(ClipboardItem::Text(t)),
            None => Err(ClipboardErr::ClipboardEmpty),
        },
    }
}

/// Something that can be asked for the item it currently holds.
pub trait GetItem {
    fn get_item(&mut self) -> Result<ClipboardItem, ClipboardErr>;
}

#[verifier::external_type_specification]
#[verifier::external_body]
pub struct ExClipboard(Clipboard);

/// Whether an item's pixel bytes fit its size as arboard lays images out:
/// four bytes (red, green, blue, alpha) per pixel, row by row. Text always fits.
pub open spec fn rgba_sized(m: ItemModel) -> bool {
    match m {
        ItemModel::Text(_) => true,
        ItemModel::Image { width, height, bytes } => bytes.len() == width * height * 4,
    }
}

/// `Clipboard::get_image` of arboard: the decoded image on the clipboard, as its
/// width, height and pixel bytes, or `None` where arboard reports an error (an
/// empty clipboard, or content that is not an image). What comes back depends
/// on what the system clipboard holds at the time; stated is only what
/// arboard's `ImageData` promises of every image: four bytes per pixel.
#[verifier::external_body]
fn read_image(clipboard: &mut Clipboard) -> (r: Option<(usize, usize, Vec<u8>)>)
    ensures
        r matches Some((w, h, b)) ==> b@.len() == w * h * 4,
{
    match clipboard.get_image() {
        Ok(img) => Some((img.width, img.height, img.bytes.to_vec())),
        Err(_) => None,
    }
}

/// `Clipboard::get_text` of arboard: the text on the clipboard, or `None` where
/// arboard reports an error (an empty clipboard, or content that is not UTF-8
/// text). What comes back depends on what the system clipboard holds at the
/// time, so nothing is stated of it.
#[verifier::external_body]
fn read_text(clipboard: &mut Clipboard) -> (r: Option<String>) {
    clipboard.get_text().ok()
}

impl GetItem for Clipboard {
    /// The image on the clipboard if there is one, else its text; the text is
    /// only asked for when no image could be read. An image read has four
    /// bytes per pixel.
    fn get_item(&mut self) -> (r: Result<ClipboardItem, ClipboardErr>)
        ensures
            r matches Ok(it) ==> rgba_sized(it@),
    {
        let image = read_image(self);
        if image.is_some() {
            item_from_reads(image, None)
        } else {
            let text = read_text(self);
            item_from_reads(None, text)
        }
    }
}

} // verus!
