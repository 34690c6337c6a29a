//! Turning raw category identifiers into a clean, ordered list of genre labels.

use vstd::hash_map::StringHashMap;
use vstd::hash_set::StringHashSet;
use vstd::prelude::*;
use vstd::string::*;

use crate::models::texts;
use crate::text::{lower_of, lowercase, trim, trimmed, upper_of, uppercase};

verus! {

/// `w` with its first character replaced by its upper-case expansion.
pub open spec fn capitalized(w: Seq<char>) -> Seq<char> {
    if w.len() == 0 {
        w
    } else {
        upper_of(w[0]) + w.skip(1)
    }
}

/// The pieces of `s` between hyphens, empty pieces included.
pub open spec fn segments(s: Seq<char>) -> Seq<Seq<char>>
    decreases s.len(),
{
    if s.len() == 0 {
        seq![Seq::<char>::empty()]
    } else {
        let init = segments(s.drop_last());
        if s.last() == '-' {
            init.push(Seq::<char>::empty())
        } else {
            init.drop_last().push(init.last().push(s.last()))
        }
    }
}

/// The non-empty pieces of `segs`, each capitalized, in order.
pub open spec fn words(segs: Seq<Seq<char>>) -> Seq<Seq<char>>
    decreases segs.len(),
{
    if segs.len() == 0 {
        Seq::<Seq<char>>::empty()
    } else if segs.last().len() == 0 {
        words(segs.drop_last())
    } else {
        words(segs.drop_last()).push(capitalized(segs.last()))
    }
}

/// `parts` written one after another with a single space between neighbours.
pub open spec fn joined(parts: Seq<Seq<char>>) -> Seq<char>
    decreases parts.len(),
{
    if parts.len() == 0 {
        Seq::<char>::empty()
    } else if parts.len() == 1 {
        parts[0]
    } else {
        joined(parts.drop_last()) + seq![' '] + parts.last()
    }
}

/// The readable label of a hyphenated slug: its non-empty pieces, capitalized
/// and separated by spaces.
pub open spec fn prettified(raw: Seq<char>) -> Seq<char> {
    joined(words(segments(raw)))
}

/// The set of strings that occur in `list`.
pub open spec fn elements(list: Seq<Seq<char>>) -> Set<Seq<char>>
    decreases list.len(),
{
    if list.len() == 0 {
        Set::<Seq<char>>::empty()
    } else {
        elements(list.drop_last()).insert(list.last())
    }
}

/// Each string of `list` in lower case.
pub open spec fn lowered(list: Seq<Seq<char>>) -> Seq<Seq<char>> {
    list.map_values(|g: Seq<char>| lower_of(g))
}

/// `genres` trimmed, without blanks, and without any entry whose lower-case
/// form was already contributed by an earlier one.
pub open spec fn normalized(genres: Seq<Seq<char>>) -> Seq<Seq<char>>
    decreases genres.len(),
{
    if genres.len() == 0 {
        Seq::<Seq<char>>::empty()
    } else {
        let init = normalized(genres.drop_last());
        let t = trimmed(genres.last());
        if t.len() == 0 || elements(lowered(init)).contains(lower_of(t)) {
            init
        } else {
            init.push(t)
        }
    }
}

/// The label chosen for a category: its localized title when that is not
/// blank, otherwise the prettified identifier.
pub open spec fn title_or_fallback(raw_id: Seq<char>, title: Seq<char>) -> Seq<char> {
    if trimmed(title).len() == 0 {
        prettified(raw_id)
    } else {
        trimmed(title)
    }
}

proof fn lemma_elements_push(list: Seq<Seq<char>>, x: Seq<char>)
    ensures
        elements(list.push(x)) == elements(list).insert(x),
{
    assert(list.push(x).drop_last() =~= list);
}

proof fn lemma_segments_push(s: Seq<char>, c: char)
    ensures
        segments(s).len() > 0,
        c == '-' ==> segments(s.push(c)) == segments(s).push(Seq::<char>::empty()),
        c != '-' ==> segments(s.push(c)) == segments(s).drop_last().push(
            segments(s).last().push(c),
        ),
    decreases s.len(),
{
    assert(s.push(c).drop_last() =~= s);
    if s.len() > 0 {
        lemma_segments_push(s.drop_last(), s.last());
        assert(s.drop_last().push(s.last()) =~= s);
    }
}

proof fn lemma_words_push(segs: Seq<Seq<char>>, piece: Seq<char>)
    ensures
        piece.len() == 0 ==> words(segs.push(piece)) == words(segs),
        piece.len() > 0 ==> words(segs.push(piece)) == words(segs).push(capitalized(piece)),
{
    assert(segs.push(piece).drop_last() =~= segs);
}

proof fn lemma_joined_push(parts: Seq<Seq<char>>, w: Seq<char>)
    ensures
        parts.len() == 0 ==> joined(parts.push(w)) == w,
        parts.len() > 0 ==> joined(parts.push(w)) == joined(parts) + seq![' '] + w,
{
    assert(parts.push(w).drop_last() =~= parts);
}

/// Upper-cases the first character of `word`.
pub fn capitalize(word: &str) -> (r: String)
    ensures
        r@ == capitalized(word@),
{
    let n = word.unicode_len();
    if n == 0 {
        return String::new();
    }
    let first = word.get_char(0);
    let head = uppercase(first);
    let rest = word.substring_char(1, n);
    proof {
        assert(word@.subrange(1, n as int) =~= word@.skip(1));
    }
    head.concat(rest)
}

/// Appends the capitalized `piece` to `out`, after a space when an earlier word
/// was already written.
fn append_word(out: &mut String, piece: &str, emitted: bool, done: Ghost<Seq<Seq<char>>>)
    requires
        piece@.len() > 0,
        old(out)@ == joined(words(done@)),
        emitted == (words(done@).len() > 0),
    ensures
        final(out)@ == joined(words(done@.push(piece@))),
        words(done@.push(piece@)).len() > 0,
{
    let word = capitalize(piece);
    proof {
        lemma_words_push(done@, piece@);
        lemma_joined_push(words(done@), capitalized(piece@));
        reveal_strlit(" ");
        assert(" "@ =~= seq![' ']);
    }
    if emitted {
        out.append(" ");
    }
    out.append(word.as_str());
    proof {
        assert(final(out)@ =~= joined(words(done@.push(piece@))));
    }
}

/// Turns a hyphenated slug into a readable label.
pub fn prettify_category(raw: &str) -> (r: String)
    ensures
        r@ == prettified(raw@),
{
    let n = raw.unicode_len();
    let mut out = String::new();
    let mut emitted = false;
    let mut start: usize = 0;
    let mut i: usize = 0;
    let ghost mut done: Seq<Seq<char>> = Seq::empty();
    proof {
        assert(raw@.take(0) =~= Seq::<char>::empty());
        assert(done.push(raw@.subrange(0, 0)) =~= seq![Seq::<char>::empty()]);
    }
    while i < n
        invariant
            n == raw@.len(),
            start <= i <= n,
            segments(raw@.take(i as int)) == done.push(raw@.subrange(start as int, i as int)),
            out@ == joined(words(done)),
            emitted == (words(done).len() > 0),
        decreases n - i,
    {
        let c = raw.get_char(i);
        proof {
            lemma_segments_push(raw@.take(i as int), c);
            assert(raw@.take(i as int).push(c) =~= raw@.take(i + 1));
        }
        let ghost piece = raw@.subrange(start as int, i as int);
        if c == '-' {
            if i > start {
                append_word(&mut out, raw.substring_char(start, i), emitted, Ghost(done));
                emitted = true;
            } else {
                proof {
                    lemma_words_push(done, piece);
                }
            }
            proof {
                done = done.push(piece);
                assert(raw@.subrange(i + 1, i + 1) =~= Seq::<char>::empty());
            }
            start = i + 1;
        } else {
            proof {
                assert(done.push(piece).drop_last() =~= done);
                assert(piece.push(c) =~= raw@.subrange(start as int, i + 1));
            }
        }
        i += 1;
    }
    let ghost piece = raw@.subrange(start as int, n as int);
    proof {
        assert(raw@.take(n as int) =~= raw@);
    }
    if n > start {
        append_word(&mut out, raw.substring_char(start, n), emitted, Ghost(done));
    } else {
        proof {
            lemma_words_push(done, piece);
        }
    }
    out
}

/// Chooses the label of a category: the trimmed localized title, or the
/// prettified identifier when the title is blank.
pub fn category_title_or_fallback(raw_id: &str, localized_title: &str) -> (r: String)
    ensures
        r@ == title_or_fallback(raw_id@, localized_title@),
{
    let title = trim(localized_title);
    if title.unicode_len() == 0 {
        return prettify_category(raw_id);
    }
    String::from_str(title)
}

/// Trims every genre, drops the blank ones and keeps the first of any group
/// that differs only in letter case.
pub fn normalize_genres(genres: Vec<String>) -> (r: Vec<String>)
    ensures
        texts(r@) == normalized(texts(genres@)),
{
    let mut seen = StringHashSet::new();
    let mut out: Vec<String> = Vec::new();
    let mut i: usize = 0;
    proof {
        assert(texts(genres@).take(0) =~= Seq::<Seq<char>>::empty());
        assert(texts(out@) =~= Seq::<Seq<char>>::empty());
        assert(lowered(texts(out@)) =~= Seq::<Seq<char>>::empty());
    }
    while i < genres.len()
        invariant
            i <= genres.len(),
            texts(out@) == normalized(texts(genres@).take(i as int)),
            seen@ == elements(lowered(texts(out@))),
        decreases genres.len() - i,
    {
        let t = trim(genres[i].as_str());
        proof {
            assert(texts(genres@).take(i + 1).drop_last() =~= texts(genres@).take(i as int));
            assert(texts(genres@).take(i + 1).last() == genres[i as int]@);
        }
        if t.unicode_len() != 0 {
            let key = lowercase(t);
            let ghost before = texts(out@);
            if seen.insert(key) {
                out.push(String::from_str(t));
                proof {
                    assert(texts(out@) =~= before.push(t@));
                    assert(lowered(before.push(t@)) =~= lowered(before).push(lower_of(t@)));
                    lemma_elements_push(lowered(before), lower_of(t@));
                }
            } else {
                proof {
                    assert(seen@ =~= elements(lowered(before)));
                }
            }
        }
        i += 1;
    }
    proof {
        assert(texts(genres@).take(genres.len() as int) =~= texts(genres@));
    }
    out
}

proof fn lemma_elements_member(list: Seq<Seq<char>>, x: Seq<char>)
    ensures
        elements(list).contains(x) <==> exists|i: int| 0 <= i < list.len() && list[i] == x,
    decreases list.len(),
{
    if list.len() > 0 {
        let init = list.drop_last();
        lemma_elements_member(init, x);
        if elements(list).contains(x) {
            if list.last() == x {
                assert(list[list.len() - 1] == x);
            } else {
                let i = choose|i: int| 0 <= i < init.len() && init[i] == x;
                assert(list[i] == x);
            }
        }
        if exists|i: int| 0 <= i < list.len() && list[i] == x {
            let i = choose|i: int| 0 <= i < list.len() && list[i] == x;
            if i < init.len() {
                assert(init[i] == x);
            }
        }
    }
}

/// Whether the genre at position `k` of `genres` is the first of its kind:
/// it is not blank, and no earlier genre that is not blank has the same
/// lower-case form.
pub open spec fn first_of_its_kind(genres: Seq<Seq<char>>, k: int) -> bool {
    &&& 0 <= k < genres.len()
    &&& trimmed(genres[k]).len() > 0
    &&& forall|e: int|
        0 <= e < k ==> trimmed(#[trigger] genres[e]).len() == 0 || lower_of(trimmed(genres[e]))
            != lower_of(trimmed(genres[k]))
}

/// Whether `g` is the trimmed form of a genre that is the first of its kind.
pub open spec fn stems_from_first(genres: Seq<Seq<char>>, g: Seq<char>) -> bool {
    exists|k: int| #[trigger] first_of_its_kind(genres, k) && trimmed(genres[k]) == g
}

/// Whether some entry of `out` has the lower-case form `key`.
pub open spec fn represented(out: Seq<Seq<char>>, key: Seq<char>) -> bool {
    exists|i: int| 0 <= i < out.len() && lower_of(#[trigger] out[i]) == key
}

/// Whether `out` is `genres` cleaned up: nothing in it is blank, no two of its
/// entries agree up to letter case, each is the trimmed form of a genre that
/// is the first of its kind, and every genre that is not blank has an entry
/// that agrees with it up to letter case.
pub open spec fn cleaned(genres: Seq<Seq<char>>, out: Seq<Seq<char>>) -> bool {
    &&& forall|i: int| 0 <= i < out.len() ==> (#[trigger] out[i]).len() > 0
    &&& forall|i: int, j: int|
        0 <= i < j < out.len() ==> lower_of(#[trigger] out[i]) != lower_of(#[trigger] out[j])
    &&& forall|i: int| 0 <= i < out.len() ==> stems_from_first(genres, #[trigger] out[i])
    &&& forall|k: int|
        0 <= k < genres.len() && trimmed(#[trigger] genres[k]).len() > 0 ==> represented(
            out,
            lower_of(trimmed(genres[k])),
        )
}

/// Normalizing cleans up: blanks go, of the genres that agree up to letter
/// case the first one stays, in its own casing, and nothing else is lost.
pub proof fn lemma_normalized_is_cleaned(genres: Seq<Seq<char>>)
    ensures
        cleaned(genres, normalized(genres)),
    decreases genres.len(),
{
    if genres.len() > 0 {
        let init = genres.drop_last();
        let last = genres.len() - 1;
        let t = trimmed(genres.last());
        let prev = normalized(init);
        let out = normalized(genres);
        lemma_normalized_is_cleaned(init);
        lemma_elements_member(lowered(prev), lower_of(t));
        let seen = elements(lowered(prev)).contains(lower_of(t));
        if seen {
            let w = choose|i: int| 0 <= i < lowered(prev).len() && lowered(prev)[i] == lower_of(t);
            assert(lower_of(prev[w]) == lower_of(t));
        }
        assert forall|i: int| 0 <= i < prev.len() implies stems_from_first(
            genres,
            #[trigger] prev[i],
        ) by {
            assert(stems_from_first(init, prev[i]));
            let k = choose|k: int| #[trigger]
                first_of_its_kind(init, k) && trimmed(init[k]) == prev[i];
            assert(genres[k] == init[k]);
            assert forall|e: int| 0 <= e < k implies trimmed(#[trigger] genres[e]).len() == 0
                || lower_of(trimmed(genres[e])) != lower_of(trimmed(genres[k])) by {
                assert(genres[e] == init[e]);
            }
            assert(first_of_its_kind(genres, k));
        }
        assert forall|k: int|
            0 <= k < init.len() && trimmed(#[trigger] genres[k]).len() > 0 implies represented(
            out,
            lower_of(trimmed(genres[k])),
        ) by {
            assert(genres[k] == init[k]);
            assert(represented(prev, lower_of(trimmed(init[k]))));
            let i = choose|i: int|
                0 <= i < prev.len() && lower_of(#[trigger] prev[i]) == lower_of(trimmed(init[k]));
            assert(out[i] == prev[i]);
        }
        if t.len() > 0 && !seen {
            assert(out == prev.push(t));
            assert forall|i: int| 0 <= i < prev.len() implies lower_of(#[trigger] prev[i])
                != lower_of(t) by {
                assert(lowered(prev)[i] == lower_of(prev[i]));
            }
            assert forall|e: int| 0 <= e < last implies trimmed(#[trigger] genres[e]).len() == 0
                || lower_of(trimmed(genres[e])) != lower_of(t) by {
                assert(genres[e] == init[e]);
                if trimmed(init[e]).len() > 0 {
                    assert(represented(prev, lower_of(trimmed(init[e]))));
                    let i = choose|i: int|
                        0 <= i < prev.len() && lower_of(#[trigger] prev[i]) == lower_of(
                            trimmed(init[e]),
                        );
                    assert(lower_of(prev[i]) != lower_of(t));
                }
            }
            assert(first_of_its_kind(genres, last));
            assert(out[prev.len() as int] == t);
            assert forall|i: int| 0 <= i < out.len() implies stems_from_first(
                genres,
                #[trigger] out[i],
            ) by {
                if i < prev.len() {
                    assert(out[i] == prev[i]);
                    assert(stems_from_first(genres, prev[i]));
                } else {
                    assert(first_of_its_kind(genres, last) && trimmed(genres[last]) == out[i]);
                }
            }
            assert forall|i: int, j: int| 0 <= i < j < out.len() implies lower_of(
                #[trigger] out[i],
            ) != lower_of(#[trigger] out[j]) by {
                assert(out[i] == prev[i]);
                if j < prev.len() {
                    assert(out[j] == prev[j]);
                }
            }
            assert(lower_of(out[prev.len() as int]) == lower_of(trimmed(genres[last])));
            assert(represented(out, lower_of(trimmed(genres[last]))));
        } else {
            assert(out == prev);
            if t.len() > 0 {
                let w = choose|i: int|
                    0 <= i < lowered(prev).len() && lowered(prev)[i] == lower_of(t);
                assert(lower_of(out[w]) == lower_of(trimmed(genres[last])));
                assert(represented(out, lower_of(trimmed(genres[last]))));
            }
        }
    }
}

/// A category together with its title in the viewer's language.
#[derive(Debug)]
pub struct LocalizedCategory {
    pub id: String,
    pub title: String,
}

/// Mathematical content of a [`LocalizedCategory`].
pub struct CategoryLabel {
    pub id: Seq<char>,
    pub title: Seq<char>,
}

impl View for LocalizedCategory {
    type V = CategoryLabel;

    open spec fn view(&self) -> CategoryLabel {
        CategoryLabel { id: self.id@, title: self.title@ }
    }
}

/// Views of a list of localized categories, element by element.
pub open spec fn category_labels(v: Seq<LocalizedCategory>) -> Seq<CategoryLabel> {
    v.map_values(|c: LocalizedCategory| c@)
}

/// The identifiers of `cats`, in order.
pub open spec fn label_ids(cats: Seq<CategoryLabel>) -> Seq<Seq<char>> {
    cats.map_values(|c: CategoryLabel| c.id)
}

/// Identifier-to-label table of `cats`; a later entry replaces an earlier one
/// with the same identifier.
pub open spec fn local_titles(cats: Seq<CategoryLabel>) -> Map<Seq<char>, Seq<char>>
    decreases cats.len(),
{
    if cats.len() == 0 {
        Map::<Seq<char>, Seq<char>>::empty()
    } else {
        local_titles(cats.drop_last()).insert(
            cats.last().id,
            title_or_fallback(cats.last().id, cats.last().title),
        )
    }
}

/// `ids` without repetitions: each identifier stays where it first occurs.
pub open spec fn distinct(ids: Seq<Seq<char>>) -> Seq<Seq<char>>
    decreases ids.len(),
{
    if ids.len() == 0 {
        Seq::<Seq<char>>::empty()
    } else {
        let init = distinct(ids.drop_last());
        if elements(init).contains(ids.last()) {
            init
        } else {
            init.push(ids.last())
        }
    }
}

/// The label of one category: its localized title, else the taxonomy's title,
/// else the prettified identifier.
pub open spec fn genre_label(
    id: Seq<char>,
    local: Map<Seq<char>, Seq<char>>,
    taxonomy: Map<Seq<char>, Seq<char>>,
) -> Seq<char> {
    if local.contains_key(id) {
        local[id]
    } else if taxonomy.contains_key(id) {
        taxonomy[id]
    } else {
        prettified(id)
    }
}

/// The genre list of a title: the distinct category identifiers, localized ones
/// first, each replaced by its label, and the labels normalized.
pub open spec fn resolved_genres(
    raw: Seq<Seq<char>>,
    localized: Seq<CategoryLabel>,
    taxonomy: Map<Seq<char>, Seq<char>>,
) -> Seq<Seq<char>> {
    normalized(
        distinct(label_ids(localized) + raw).map_values(
            |id: Seq<char>| genre_label(id, local_titles(localized), taxonomy),
        ),
    )
}

/// Views of the values of a string-keyed table.
pub open spec fn title_views(m: Map<Seq<char>, String>) -> Map<Seq<char>, Seq<char>> {
    m.map_values(|s: String| s@)
}

/// Category labels known ahead of time, by category identifier.
pub struct CategoryTaxonomy {
    titles_by_id: StringHashMap<String>,
}

impl CategoryTaxonomy {
    /// The table as a map from identifier to label.
    pub closed spec fn titles(&self) -> Map<Seq<char>, Seq<char>> {
        title_views(self.titles_by_id@)
    }

    /// A taxonomy that knows no category.
    pub fn new() -> (r: Self)
        ensures
            r.titles() == Map::<Seq<char>, Seq<char>>::empty(),
    {
        let r = CategoryTaxonomy { titles_by_id: StringHashMap::new() };
        proof {
            assert(r.titles() =~= Map::<Seq<char>, Seq<char>>::empty());
        }
        r
    }

    /// The label recorded for `id`, if there is one.
    pub fn title_of(&self, id: &str) -> (r: Option<String>)
        ensures
            r.is_some() == self.titles().contains_key(id@),
            r.is_some() ==> r.unwrap()@ == self.titles()[id@],
    {
        match self.titles_by_id.get(id) {
            Some(t) => Some(t.clone()),
            None => None,
        }
    }
}

/// Builds the taxonomy from the outcome of listing all categories; a failed
/// listing gives the empty taxonomy.
pub fn load_category_taxonomy(listing: Result<Vec<LocalizedCategory>, String>) -> (r:
    CategoryTaxonomy)
    ensures
        match listing {
            Ok(categories) => r.titles() == local_titles(category_labels(categories@)),
            Err(_) => r.titles() == Map::<Seq<char>, Seq<char>>::empty(),
        },
{
    let categories = match listing {
        Ok(categories) => categories,
        Err(_) => {
            return CategoryTaxonomy::new();
        },
    };
    let mut table: StringHashMap<String> = StringHashMap::new();
    let mut i: usize = 0;
    proof {
        assert(category_labels(categories@).take(0) =~= Seq::<CategoryLabel>::empty());
        assert(title_views(table@) =~= Map::<Seq<char>, Seq<char>>::empty());
    }
    while i < categories.len()
        invariant
            i <= categories.len(),
            title_views(table@) == local_titles(category_labels(categories@).take(i as int)),
        decreases categories.len() - i,
    {
        let id = categories[i].id.clone();
        let label = category_title_or_fallback(id.as_str(), categories[i].title.as_str());
        let ghost before = table@;
        table.insert(id, label);
        proof {
            let cats = category_labels(categories@);
            assert(cats.take(i + 1).drop_last() =~= cats.take(i as int));
            assert(cats.take(i + 1).last() == categories[i as int]@);
            assert(title_views(table@) =~= title_views(before).insert(id@, label@));
        }
        i += 1;
    }
    proof {
        let cats = category_labels(categories@);
        assert(cats.take(categories.len() as int) =~= cats);
    }
    CategoryTaxonomy { titles_by_id: table }
}

proof fn lemma_distinct_push(ids: Seq<Seq<char>>, x: Seq<char>)
    ensures
        elements(distinct(ids)).contains(x) ==> distinct(ids.push(x)) == distinct(ids),
        !elements(distinct(ids)).contains(x) ==> distinct(ids.push(x)) == distinct(ids).push(x),
{
    assert(ids.push(x).drop_last() =~= ids);
}

/// Appends `id` to `ids` unless it was seen before.
fn note_id(
    ids: &mut Vec<String>,
    seen: &mut StringHashSet,
    id: String,
    source: Ghost<Seq<Seq<char>>>,
)
    requires
        texts(old(ids)@) == distinct(source@),
        old(seen)@ == elements(texts(old(ids)@)),
    ensures
        texts(final(ids)@) == distinct(source@.push(id@)),
        final(seen)@ == elements(texts(final(ids)@)),
{
    let ghost before = texts(ids@);
    proof {
        lemma_distinct_push(source@, id@);
    }
    if seen.insert(id.clone()) {
        ids.push(id);
        proof {
            assert(texts(ids@) =~= before.push(id@));
            lemma_elements_push(before, id@);
        }
    } else {
        proof {
            assert(seen@ =~= elements(before));
        }
    }
}

/// Resolves the genre labels of a title from its raw category identifiers,
/// its localized categories and the taxonomy.
pub fn resolve_genres(
    raw_categories: Vec<String>,
    localized_categories: Vec<LocalizedCategory>,
    taxonomy: &CategoryTaxonomy,
) -> (r: Vec<String>)
    ensures
        texts(r@) == resolved_genres(
            texts(raw_categories@),
            category_labels(localized_categories@),
            taxonomy.titles(),
        ),
{
    let ghost cats = category_labels(localized_categories@);
    let ghost raw = texts(raw_categories@);
    let mut category_ids: Vec<String> = Vec::new();
    let mut seen_ids = StringHashSet::new();
    let mut localized_titles: StringHashMap<String> = StringHashMap::new();
    proof {
        assert(cats.take(0) =~= Seq::<CategoryLabel>::empty());
        assert(label_ids(cats.take(0)) =~= Seq::<Seq<char>>::empty());
        assert(texts(category_ids@) =~= Seq::<Seq<char>>::empty());
        assert(title_views(localized_titles@) =~= Map::<Seq<char>, Seq<char>>::empty());
    }
    let mut i: usize = 0;
    while i < localized_categories.len()
        invariant
            i <= localized_categories.len(),
            cats == category_labels(localized_categories@),
            title_views(localized_titles@) == local_titles(cats.take(i as int)),
            texts(category_ids@) == distinct(label_ids(cats.take(i as int))),
            seen_ids@ == elements(texts(category_ids@)),
        decreases localized_categories.len() - i,
    {
        let category_id = localized_categories[i].id.clone();
        let label = category_title_or_fallback(
            category_id.as_str(),
            localized_categories[i].title.as_str(),
        );
        let ghost before = localized_titles@;
        localized_titles.insert(category_id.clone(), label);
        note_id(
            &mut category_ids,
            &mut seen_ids,
            category_id,
            Ghost(label_ids(cats.take(i as int))),
        );
        proof {
            assert(cats.take(i + 1).drop_last() =~= cats.take(i as int));
            assert(cats.take(i + 1).last() == localized_categories[i as int]@);
            assert(title_views(localized_titles@) =~= title_views(before).insert(
                category_id@,
                label@,
            ));
            assert(label_ids(cats.take(i + 1)) =~= label_ids(cats.take(i as int)).push(
                category_id@,
            ));
        }
        i += 1;
    }
    proof {
        assert(cats.take(localized_categories.len() as int) =~= cats);
        assert(label_ids(cats) + raw.take(0) =~= label_ids(cats));
    }
    let mut j: usize = 0;
    while j < raw_categories.len()
        invariant
            j <= raw_categories.len(),
            raw == texts(raw_categories@),
            texts(category_ids@) == distinct(label_ids(cats) + raw.take(j as int)),
            seen_ids@ == elements(texts(category_ids@)),
        decreases raw_categories.len() - j,
    {
        let category_id = raw_categories[j].clone();
        note_id(
            &mut category_ids,
            &mut seen_ids,
            category_id,
            Ghost(label_ids(cats) + raw.take(j as int)),
        );
        proof {
            assert((label_ids(cats) + raw.take(j as int)).push(category_id@) =~= label_ids(cats)
                + raw.take(j + 1));
        }
        j += 1;
    }
    proof {
        assert(raw.take(raw_categories.len() as int) =~= raw);
    }
    let mut labels: Vec<String> = Vec::new();
    let mut k: usize = 0;
    while k < category_ids.len()
        invariant
            k <= category_ids.len(),
            labels.len() == k,
            title_views(localized_titles@) == local_titles(cats),
            forall|m: int|
                0 <= m < k ==> labels[m]@ == genre_label(
                    #[trigger] category_ids[m]@,
                    local_titles(cats),
                    taxonomy.titles(),
                ),
        decreases category_ids.len() - k,
    {
        let id = category_ids[k].as_str();
        let label = match localized_titles.get(id) {
            Some(title) => title.clone(),
            None => match taxonomy.title_of(id) {
                Some(title) => title,
                None => prettify_category(id),
            },
        };
        labels.push(label);
        k += 1;
    }
    proof {
        assert(texts(labels@) =~= texts(category_ids@).map_values(
            |id: Seq<char>| genre_label(id, local_titles(cats), taxonomy.titles()),
        ));
    }
    normalize_genres(labels)
}

} // verus!
