//! Which emojis the picker shows for a search.

use vstd::prelude::*;

use crate::text::chars_of;

verus! {

/// `str::to_lowercase` of std, as a function of the characters.
pub uninterp spec fn lowercase(s: Seq<char>) -> Seq<char>;

/// `str::to_lowercase` of std: the lowercase form of `s` by the Unicode
/// `Lowercase` mapping. The tables live in std, so the result depends on `s`
/// alone; it is named `lowercase(s@)`. Stated besides: the empty string
/// lowercases to the empty string.
#[verifier::external_body]
fn to_lowercase(s: &str) -> (r: String)
    ensures
        r@ == lowercase(s@),
        s@.len() == 0 ==> r@.len() == 0,
{
    s.to_lowercase()
}

/// What the picker searches for when the search box holds `text`: nothing
/// when `text` is empty once lowercased, else its lowercase form.
pub fn search_filter(text: &str) -> (r: Option<String>)
    ensures
        match r {
            None => lowercase(text@).len() == 0,
            Some(f) => f@ == lowercase(text@) && f@.len() > 0,
        },
{
    let lower = to_lowercase(text);
    if lower.as_str().is_empty() {
        None
    } else {
        Some(lower)
    }
}

/// Whether `needle` occurs in `hay` as a run of consecutive characters (the
/// empty needle occurs everywhere).
pub open spec fn occurs_in(needle: Seq<char>, hay: Seq<char>) -> bool {
    exists|i: int|
        0 <= i && i + needle.len() <= hay.len() && #[trigger] hay.subrange(i, i + needle.len())
            == needle
}

/// Whether `needle` occurs in `hay`.
pub fn occurs(needle: &Vec<char>, hay: &Vec<char>) -> (r: bool)
    ensures
        r == occurs_in(needle@, hay@),
{
    let m = needle.len();
    let n = hay.len();
    if m > n {
        return false;
    }
    let last = n - m;
    let mut i: usize = 0;
    loop
        invariant
            m == needle@.len(),
            n == hay@.len(),
            last == n - m,
            i <= last,
            forall|k: int| 0 <= k < i ==> #[trigger] hay@.subrange(k, k + m) != needle@,
        decreases last - i,
    {
        let mut j: usize = 0;
        let mut same = true;
        while j < m
            invariant
                m == needle@.len(),
                n == hay@.len(),
                i + m <= n,
                j <= m,
                same ==> forall|l: int| 0 <= l < j ==> hay@[i + l] == needle@[l],
                !same ==> hay@.subrange(i as int, i + m) != needle@,
            decreases m - j,
        {
            if hay[i + j] != needle[j] {
                assert(hay@.subrange(i as int, i + m)[j as int] != needle@[j as int]);
                same = false;
            }
            j = j + 1;
        }
        if same {
            assert(hay@.subrange(i as int, i + m) =~= needle@);
            return true;
        }
        if i == last {
            assert forall|k: int| 0 <= k && k + m <= n implies #[trigger] hay@.subrange(k, k + m)
                != needle@ by {
                if k < i {
                } else {
                    assert(k == i);
                }
            }
            return false;
        }
        i = i + 1;
    }
}

/// The glyph that the picker never shows: it is drawn too wide.
pub open spec fn hidden_glyph() -> Seq<char> {
    "🧑‍🩰"@
}

/// One emoji as the picker knows it: its glyph, its name and its first
/// GitHub shortcode.
pub struct EmojiEntry {
    pub glyph: String,
    pub name: String,
    pub shortcode: Option<String>,
}

/// The value of an emoji entry: its glyph, name and first shortcode as characters.
pub struct EmojiModel {
    pub glyph: Seq<char>,
    pub name: Seq<char>,
    pub shortcode: Option<Seq<char>>,
}

impl View for EmojiEntry {
    type V = EmojiModel;

    open spec fn view(&self) -> EmojiModel {
        EmojiModel {
            glyph: self.glyph@,
            name: self.name@,
            shortcode: match self.shortcode {
                Some(sc) => Some(sc@),
                None => None,
            },
        }
    }
}

/// The values of some entries.
pub open spec fn entry_models(entries: Seq<EmojiEntry>) -> Seq<EmojiModel> {
    entries.map_values(|e: EmojiEntry| e@)
}

/// Whether the picker shows `e` for the search `search` (`None`: no search):
/// never the hidden glyph; otherwise every emoji without a search, and with
/// one those whose lowercase name or shortcode holds the lowercase search.
pub open spec fn shown(e: EmojiModel, search: Option<Seq<char>>) -> bool {
    &&& e.glyph != hidden_glyph()
    &&& match search {
        None => true,
        Some(f) => occurs_in(lowercase(f), lowercase(e.name)) || match e.shortcode {
            Some(sc) => occurs_in(lowercase(f), lowercase(sc)),
            None => false,
        },
    }
}

/// The glyphs of the entries that the picker shows for `search`, in order.
pub open spec fn shown_glyphs(entries: Seq<EmojiModel>, search: Option<Seq<char>>) -> Seq<
    Seq<char>,
>
    decreases entries.len(),
{
    if entries.len() == 0 {
        seq![]
    } else {
        let rest = shown_glyphs(entries.drop_last(), search);
        if shown(entries.last(), search) {
            rest.push(entries.last().glyph)
        } else {
            rest
        }
    }
}

/// Only the hidden glyph is ever left out for its own sake: every other emoji
/// is shown without a search, and with a search whenever its lowercase name or
/// shortcode holds the lowercase search; with a search, only such emojis are
/// shown.
pub proof fn lemma_shown_exactly(e: EmojiModel, f: Seq<char>, search: Option<Seq<char>>)
    ensures
        e.glyph != hidden_glyph() ==> shown(e, None),
        e.glyph != hidden_glyph() && occurs_in(lowercase(f), lowercase(e.name)) ==> shown(e, Some(f)),
        e.glyph != hidden_glyph() && (e.shortcode matches Some(sc) && occurs_in(
            lowercase(f),
            lowercase(sc),
        )) ==> shown(e, Some(f)),
        shown(e, Some(f)) ==> occurs_in(lowercase(f), lowercase(e.name)) || (
        e.shortcode matches Some(sc) && occurs_in(lowercase(f), lowercase(sc))),
        e.glyph == hidden_glyph() ==> !shown(e, search),
{
}

/// Selection goes entry by entry, in order: the glyphs shown of a
/// concatenation are those of each part, and a single entry gives its glyph
/// exactly when it is shown.
pub proof fn lemma_shown_glyphs_by_entry(
    a: Seq<EmojiModel>,
    b: Seq<EmojiModel>,
    e: EmojiModel,
    search: Option<Seq<char>>,
)
    ensures
        shown_glyphs(a + b, search) == shown_glyphs(a, search) + shown_glyphs(b, search),
        shown_glyphs(seq![e], search) == if shown(e, search) {
            seq![e.glyph]
        } else {
            Seq::<Seq<char>>::empty()
        },
    decreases b.len(),
{
    if b.len() == 0 {
        assert(a + b =~= a);
        assert(shown_glyphs(b, search) =~= Seq::<Seq<char>>::empty());
        assert(shown_glyphs(a, search) + shown_glyphs(b, search) =~= shown_glyphs(a, search));
    } else {
        lemma_shown_glyphs_by_entry(a, b.drop_last(), e, search);
        assert((a + b).drop_last() =~= a + b.drop_last());
        assert((a + b).last() == b.last());
        if shown(b.last(), search) {
            assert(shown_glyphs(a, search) + shown_glyphs(b, search) =~= (shown_glyphs(a, search)
                + shown_glyphs(b.drop_last(), search)).push(b.last().glyph));
        } else {
            assert(shown_glyphs(a, search) + shown_glyphs(b, search) =~= shown_glyphs(a, search)
                + shown_glyphs(b.drop_last(), search));
        }
    }
    let one = seq![e];
    assert(one.drop_last() =~= Seq::<EmojiModel>::empty());
    assert(shown_glyphs(Seq::<EmojiModel>::empty(), search) =~= Seq::<Seq<char>>::empty());
    assert(one.last() == e);
    if shown(e, search) {
        assert(shown_glyphs(one, search) =~= seq![e.glyph]);
    } else {
        assert(shown_glyphs(one, search) =~= Seq::<Seq<char>>::empty());
    }
}

/// A run of characters occurs wherever it is written: inside any text that
/// holds it between two other runs, and never in a shorter text; the empty
/// run occurs everywhere.
pub proof fn lemma_occurs_where_written(needle: Seq<char>, a: Seq<char>, b: Seq<char>, hay: Seq<char>)
    ensures
        occurs_in(needle, a + needle + b),
        occurs_in(Seq::<char>::empty(), hay),
        occurs_in(needle, hay) ==> needle.len() <= hay.len(),
{
    let h = a + needle + b;
    assert(h.subrange(a.len() as int, (a.len() + needle.len()) as int) =~= needle);
    let e = Seq::<char>::empty();
    assert(hay.subrange(0, 0int + e.len()) =~= e);
}

/// No shown glyph is the hidden one.
pub proof fn lemma_hidden_never_shown(entries: Seq<EmojiModel>, search: Option<Seq<char>>)
    ensures
        forall|i: int|
            0 <= i < shown_glyphs(entries, search).len() ==> #[trigger] shown_glyphs(
                entries,
                search,
            )[i] != hidden_glyph(),
    decreases entries.len(),
{
    if entries.len() > 0 {
        let rest = shown_glyphs(entries.drop_last(), search);
        let all = shown_glyphs(entries, search);
        lemma_hidden_never_shown(entries.drop_last(), search);
        assert forall|i: int| 0 <= i < all.len() implies #[trigger] all[i] != hidden_glyph() by {
            if i < rest.len() {
                assert(all[i] == rest[i]);
            }
        }
    }
}

/// The views of some strings.
pub open spec fn string_views(v: Seq<String>) -> Seq<Seq<char>> {
    v.map_values(|s: String| s@)
}

/// The glyphs of the entries that the picker shows for `search`, in order.
pub fn select_emojis(entries: &Vec<EmojiEntry>, search: Option<&str>) -> (r: Vec<String>)
    ensures
        string_views(r@) == shown_glyphs(
            entry_models(entries@),
            match search {
                Some(f) => Some(f@),
                None => None,
            },
        ),
{
    let ghost spec_search: Option<Seq<char>> = match search {
        Some(f) => Some(f@),
        None => None,
    };
    let hidden = String::from_str("🧑‍🩰");
    let needle: Option<Vec<char>> = match search {
        Some(f) => {
            let lower = to_lowercase(f);
            Some(chars_of(lower.as_str()))
        },
        None => None,
    };
    let mut out: Vec<String> = Vec::new();
    let n = entries.len();
    let mut i: usize = 0;
    while i < n
        invariant
            n == entries@.len(),
            i <= n,
            hidden@ == hidden_glyph(),
            spec_search == (match search {
                Some(f) => Some(f@),
                None => None::<Seq<char>>,
            }),
            match needle {
                Some(v) => spec_search matches Some(f) && v@ == lowercase(f),
                None => spec_search is None,
            },
            string_views(out@) == shown_glyphs(entry_models(entries@.take(i as int)), spec_search),
        decreases n - i,
    {
        let e = &entries[i];
        let keep = if e.glyph == hidden {
            false
        } else {
            match &needle {
                None => true,
                Some(v) => {
                    let name = to_lowercase(e.name.as_str());
                    if occurs(v, &chars_of(name.as_str())) {
                        true
                    } else {
                        match &e.shortcode {
                            Some(sc) => {
                                let code = to_lowercase(sc.as_str());
                                occurs(v, &chars_of(code.as_str()))
                            },
                            None => false,
                        }
                    }
                },
            }
        };
        let ghost before = out@;
        if keep {
            out.push(e.glyph.clone());
        }
        proof {
            let t = entry_models(entries@.take(i + 1));
            assert(t.drop_last() =~= entry_models(entries@.take(i as int)));
            assert(t.last() == entries@[i as int]@);
            assert(keep == shown(entries@[i as int]@, spec_search));
            if keep {
                assert(string_views(out@) =~= string_views(before).push(e.glyph@));
            } else {
                assert(string_views(out@) =~= string_views(before));
            }
        }
        i = i + 1;
    }
    assert(entries@.take(n as int) =~= entries@);
    out
}

/// The entry at position `i` of the emojis crate's catalog (`emojis::iter`,
/// every emoji in Unicode CLDR order without the non-default skin tones), or
/// `None` past its end. The catalog is a table compiled into the crate, so the
/// entry depends on `i` alone.
pub uninterp spec fn catalog_entry(i: nat) -> Option<EmojiModel>;

/// Whether the catalog holds exactly `n` emojis.
pub open spec fn catalog_has_size(n: nat) -> bool {
    &&& forall|k: nat| k < n ==> #[trigger] catalog_entry(k) is Some
    &&& catalog_entry(n) is None
}

/// The number of emojis in the catalog.
pub open spec fn catalog_len() -> nat {
    choose|n: nat| catalog_has_size(n)
}

/// The first `n` entries of the catalog.
pub open spec fn catalog_prefix(n: nat) -> Seq<EmojiModel> {
    Seq::new(n, |k: int| catalog_entry(k as nat).unwrap())
}

/// The whole catalog, in its order.
pub open spec fn emoji_catalog() -> Seq<EmojiModel> {
    catalog_prefix(catalog_len())
}

/// A catalog of `n` emojis has `catalog_len() == n`.
pub proof fn lemma_catalog_len(n: nat)
    requires
        catalog_has_size(n),
    ensures
        catalog_len() == n,
{
    let m = catalog_len();
    assert(catalog_has_size(m));
    if m < n {
        assert(catalog_entry(m) is Some);
    }
    if n < m {
        assert(catalog_entry(n) is Some);
    }
}

/// `emojis::iter().count()` of the emojis crate: the number of emojis in the
/// catalog, so every position below it holds an entry and the position it
/// names holds none.
#[verifier::external_body]
fn emoji_count() -> (r: usize)
    ensures
        forall|k: nat| k < r ==> #[trigger] catalog_entry(k) is Some,
        catalog_entry(r as nat) is None,
{
    emojis::iter().count()
}

/// `emojis::iter().nth(i)` of the emojis crate, with the emoji's `as_str`,
/// `name` and `shortcode` taken as strings: the catalog entry at position `i`,
/// named `catalog_entry(i)`.
#[verifier::external_body]
fn emoji_at(i: usize) -> (r: Option<EmojiEntry>)
    ensures
        match r {
            Some(e) => catalog_entry(i as nat) == Some(e@),
            None => catalog_entry(i as nat) is None,
        },
{
    match emojis::iter().nth(i) {
        Some(e) => Some(
            EmojiEntry {
                glyph: e.as_str().to_string(),
                name: e.name().to_string(),
                shortcode: e.shortcode().map(str::to_string),
            },
        ),
        None => None,
    }
}

/// The glyphs of the emojis of the catalog that the picker shows for `search`
/// (`None`: no search), in the catalog's order. None of them is the hidden
/// glyph.
pub fn matching_emojis(search: Option<&str>) -> (r: Vec<String>)
    ensures
        string_views(r@) == shown_glyphs(
            emoji_catalog(),
            match search {
                Some(f) => Some(f@),
                None => None,
            },
        ),
        forall|i: int| 0 <= i < r@.len() ==> (#[trigger] r@[i])@ != hidden_glyph(),
{
    let n = emoji_count();
    let mut entries: Vec<EmojiEntry> = Vec::new();
    let mut i: usize = 0;
    while i < n
        invariant
            i <= n,
            forall|k: nat| k < n ==> #[trigger] catalog_entry(k) is Some,
            entry_models(entries@) =~= catalog_prefix(i as nat),
        decreases n - i,
    {
        match emoji_at(i) {
            Some(e) => {
                let ghost before = entries@;
                let ghost m = e@;
                entries.push(e);
                assert(entry_models(entries@) =~= entry_models(before).push(m));
                assert(catalog_prefix((i + 1) as nat) =~= catalog_prefix(i as nat).push(m));
            },
            None => {
                assert(catalog_entry(i as nat) is Some);
            },
        }
        i = i + 1;
    }
    proof {
        lemma_catalog_len(n as nat);
    }
    let r = select_emojis(&entries, search);
    proof {
        let sv = match search {
            Some(f) => Some(f@),
            None => None::<Seq<char>>,
        };
        lemma_hidden_never_shown(emoji_catalog(), sv);
        assert forall|i: int| 0 <= i < r@.len() implies (#[trigger] r@[i])@ != hidden_glyph() by {
            assert(string_views(r@)[i] == r@[i]@);
        }
    }
    r
}

} // verus!
