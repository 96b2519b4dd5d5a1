//! The decisions behind the picker window: how an entry is previewed, which
//! entry is pasted when clicked, which emojis a search shows, and how long
//! the clearing animation waits.

use vstd::prelude::*;
use vstd::string::{StringExecFns, StringSliceAdditionalSpecFns};
use vstd::utf8::{decode_utf8, encode_utf8, is_char_boundary};

use crate::common::{ClipboardItem, ItemModel};
use crate::text::{chars_of, decimal, push_decimal};

verus! {

broadcast use vstd::utf8::group_utf8_lib;

/// The number of bytes of text that a preview shows before it is cut short.
pub const PREVIEW_BYTES: usize = 60;

/// How an entry is previewed in the picker: text of more than
/// `PREVIEW_BYTES` bytes is cut to its first `PREVIEW_BYTES` bytes and
/// followed by `...`; an image is shown as its width and height.
pub open spec fn preview_of(m: ItemModel) -> Seq<char> {
    match m {
        ItemModel::Text(t) => if encode_utf8(t).len() > PREVIEW_BYTES {
            decode_utf8(encode_utf8(t).subrange(0, PREVIEW_BYTES as int)) + "..."@
        } else {
            t
        },
        ItemModel::Image { width, height, .. } => decimal(width as nat) + "x"@ + decimal(
            height as nat,
        ),
    }
}

/// Whether the preview of `m` can be cut where it is cut: a text longer than
/// the preview must have a character boundary at `PREVIEW_BYTES`.
pub open spec fn previewable(m: ItemModel) -> bool {
    match m {
        ItemModel::Text(t) => encode_utf8(t).len() > PREVIEW_BYTES ==> is_char_boundary(
            encode_utf8(t),
            PREVIEW_BYTES as int,
        ),
        ItemModel::Image { .. } => true,
    }
}

/// A text of at most 60 bytes is previewed whole; a longer one is previewed
/// as the characters that make up its first 60 bytes, then `...`.
pub proof fn lemma_preview_keeps_first_bytes(t: Seq<char>)
    requires
        previewable(ItemModel::Text(t)),
    ensures
        encode_utf8(t).len() <= 60 ==> preview_of(ItemModel::Text(t)) == t,
        encode_utf8(t).len() > 60 ==> exists|head: Seq<char>, rest: Seq<char>|
            #![trigger encode_utf8(head), head + rest]
            t == head + rest && encode_utf8(head) == encode_utf8(t).subrange(0, 60)
                && preview_of(ItemModel::Text(t)) == head + "..."@,
{
    let bytes = encode_utf8(t);
    if bytes.len() > 60 {
        vstd::utf8::encode_utf8_valid_utf8(t);
        vstd::utf8::valid_utf8_split(bytes, 60);
        vstd::utf8::decode_utf8_split(bytes, 60);
        let first = bytes.subrange(0, 60);
        let head = decode_utf8(first);
        let rest = decode_utf8(bytes.subrange(60, bytes.len() as int));
        vstd::utf8::encode_utf8_decode_utf8(t);
        vstd::utf8::decode_utf8_encode_utf8(first);
        assert(t == head + rest);
        assert(encode_utf8(head) == first);
        assert(preview_of(ItemModel::Text(t)) == head + "..."@);
    }
}

/// The preview of an entry shown in the picker.
pub fn content_preview(item: &ClipboardItem) -> (r: String)
    requires
        previewable(item@),
    ensures
        r@ == preview_of(item@),
{
    match item {
        ClipboardItem::Text(text) => {
            let s = text.as_str();
            let byte_len = s.as_bytes().len();
            if byte_len > PREVIEW_BYTES {
                let (head, _) = s.split_at(PREVIEW_BYTES);
                let mut out = head.to_owned();
                out.append("...");
                assert(decode_utf8(encode_utf8(head@)) == head@);
                out
            } else {
                text.clone()
            }
        },
        ClipboardItem::Image { width, height, .. } => {
            let mut out = String::new();
            push_decimal(&mut out, *width);
            out.append("x");
            push_decimal(&mut out, *height);
            assert(out@ =~= decimal(*width as nat) + "x"@ + decimal(*height as nat));
            out
        },
    }
}

/// Whether the code point `u` has the Unicode property White_Space: the
/// controls U+0009 to U+000D, U+0020, U+0085, U+00A0, U+1680, U+2000 to
/// U+200A, U+2028, U+2029, U+202F, U+205F and U+3000.
pub open spec fn white_space_code(u: u32) -> bool {
    ||| 0x9 <= u <= 0xd
    ||| u == 0x20
    ||| u == 0x85
    ||| u == 0xa0
    ||| u == 0x1680
    ||| 0x2000 <= u <= 0x200a
    ||| u == 0x2028
    ||| u == 0x2029
    ||| u == 0x202f
    ||| u == 0x205f
    ||| u == 0x3000
}

/// Whether `c` is whitespace, as `char::is_whitespace` and `str::trim` count it.
pub open spec fn whitespace(c: char) -> bool {
    white_space_code(c as u32)
}

/// Whether `c` is whitespace.
pub fn is_whitespace(c: char) -> (r: bool)
    ensures
        r == whitespace(c),
{
    let u = c as u32;
    (0x9 <= u && u <= 0xd) || u == 0x20 || u == 0x85 || u == 0xa0 || u == 0x1680 || (0x2000 <= u
        && u <= 0x200a) || u == 0x2028 || u == 0x2029 || u == 0x202f || u == 0x205f || u == 0x3000
}

/// Whether `t` holds a character that is not whitespace.
pub open spec fn has_visible_char(t: Seq<char>) -> bool {
    exists|i: int| 0 <= i < t.len() && !whitespace(#[trigger] t[i])
}

/// Whether a click on `m` pastes it: only text that is not all whitespace
/// (what `trim` would leave empty) is pasted.
pub open spec fn pastes(m: ItemModel) -> bool {
    match m {
        ItemModel::Text(t) => has_visible_char(t),
        ItemModel::Image { .. } => false,
    }
}

/// A text is pasted exactly when one of its characters is not whitespace,
/// whatever else it holds; an image is never pasted.
pub proof fn lemma_pasted_iff_visible(t: Seq<char>, width: usize, height: usize, bytes: Seq<u8>)
    ensures
        pastes(ItemModel::Text(t)) <==> exists|i: int| 0 <= i < t.len() && !whitespace(#[trigger] t[i]),
        !pastes(ItemModel::Image { width, height, bytes }),
{
}

/// Whether a click on the entry puts it back on the clipboard to be pasted.
pub fn should_paste(item: &ClipboardItem) -> (r: bool)
    ensures
        r == pastes(item@),
{
    match item {
        ClipboardItem::Text(text) => {
            let chars = chars_of(text.as_str());
            let n = chars.len();
            let mut i: usize = 0;
            while i < n
                invariant
                    n == chars@.len(),
                    chars@ == text@,
                    item@ == ItemModel::Text(text@),
                    i <= n,
                    forall|j: int| 0 <= j < i ==> whitespace(#[trigger] text@[j]),
                decreases n - i,
            {
                if !is_whitespace(chars[i]) {
                    assert(!whitespace(text@[i as int]));
                    return true;
                }
                i = i + 1;
            }
            false
        },
        ClipboardItem::Image { .. } => false,
    }
}

/// The milliseconds between the moments two neighbouring entries start to
/// fold away when the history is cleared.
pub const FOLD_STAGGER_MS: u64 = 16;

/// The milliseconds that the folding of one entry takes.
pub const FOLD_MS: u64 = 240;

/// When the entry at `index` starts to fold away, in milliseconds after
/// "Clear All" was pressed.
pub fn fold_start_ms(index: usize) -> (r: u64)
    requires
        index * FOLD_STAGGER_MS <= u64::MAX,
    ensures
        r == index * FOLD_STAGGER_MS,
{
    (index as u64) * FOLD_STAGGER_MS
}

/// When the last of `count` entries has folded away, in milliseconds after
/// "Clear All" was pressed.
pub fn fold_end_ms(count: usize) -> (r: u64)
    requires
        FOLD_MS + count * FOLD_STAGGER_MS <= u64::MAX,
    ensures
        r == FOLD_MS + count * FOLD_STAGGER_MS,
{
    FOLD_MS + (count as u64) * FOLD_STAGGER_MS
}

/// The two tabs of the picker.
pub enum Tab {
    /// The clipboard history.
    Clipboard,
    /// The emoji grid.
    Emojis,
}

/// Which tab button is marked active and which controls are visible.
pub struct TabLayout {
    pub clipboard_active: bool,
    pub emojis_active: bool,
    pub search_visible: bool,
    pub clear_all_visible: bool,
}

/// The layout of the picker when `tab` is chosen: its button is marked
/// active, the other not; the emoji search box shows only with the emojis and
/// "Clear All" only with the history.
pub fn tab_layout(tab: Tab) -> (r: TabLayout)
    ensures
        r.clipboard_active == (tab is Clipboard),
        r.emojis_active == (tab is Emojis),
        r.search_visible == (tab is Emojis),
        r.clear_all_visible == (tab is Clipboard),
{
    match tab {
        Tab::Clipboard => TabLayout {
            clipboard_active: true,
            emojis_active: false,
            search_visible: false,
            clear_all_visible: true,
        },
        Tab::Emojis => TabLayout {
            clipboard_active: false,
            emojis_active: true,
            search_visible: true,
            clear_all_visible: false,
        },
    }
}

/// The position of the history entry that a delete button removes: the
/// position at which its row was found among the shown rows, or the first
/// entry when it was not found.
pub fn delete_index(found: Option<u32>) -> (r: usize)
    ensures
        r == match found {
            Some(i) => i as int,
            None => 0,
        },
{
    match found {
        Some(i) => i as usize,
        None => 0,
    }
}

/// How "Clear All" empties the picker.
pub enum ClearAll {
    /// Nothing is shown: the history is cleared and the list redrawn at once.
    Immediately,
    /// The shown entries fold away one after another; the history is cleared
    /// once the last has folded, `end_ms` milliseconds after the press.
    Animated { end_ms: u64 },
}

/// How "Clear All" empties a picker that shows `shown` entries.
pub fn plan_clear_all(shown: usize) -> (r: ClearAll)
    requires
        shown > 0 ==> FOLD_MS + shown * FOLD_STAGGER_MS <= u64::MAX,
    ensures
        shown == 0 ==> r is Immediately,
        shown > 0 ==> r == (ClearAll::Animated { end_ms: (FOLD_MS + shown * FOLD_STAGGER_MS) as u64 }),
{
    if shown == 0 {
        ClearAll::Immediately
    } else {
        ClearAll::Animated { end_ms: fold_end_ms(shown) }
    }
}

} // verus!
