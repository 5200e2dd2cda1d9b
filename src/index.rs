//! The embedded index of a pack, held in memory: the tag dictionary, the media entries
//! and the text rows, each with the ids of its tags, and the tag-filtered random
//! queries served from it.

use vstd::prelude::*;
use crate::target::copy_opt_string;
use crate::types::{MediaCategory, MediaType};
use vstd::string::*;

verus! {

/// A declared tag.
pub struct Tag {
    pub id: u64,
    pub name: String,
}

/// One media asset of a pack and where its bytes lie.
pub struct MediaEntry {
    pub id: i64,
    /// The asset's path relative to the packed directory.
    pub path: String,
    pub media_type: MediaType,
    pub category: MediaCategory,
    pub offset: u64,
    pub length: u64,
    pub width: Option<i64>,
    pub height: Option<i64>,
    /// Play time in milliseconds.
    pub duration: Option<i64>,
}

/// A notification to show.
pub struct Notification {
    pub summary: Option<String>,
    pub body: String,
}

/// A link to open.
pub struct Link {
    pub link: String,
}

/// A prompt to show.
pub struct Prompt {
    pub prompt: String,
}

/// A row of the index together with the ids of its tags.
pub struct Tagged<T> {
    pub item: T,
    pub tag_ids: Vec<u64>,
}

/// The whole index of a pack.
pub struct PackIndex {
    pub tags: Vec<Tag>,
    pub media: Vec<Tagged<MediaEntry>>,
    pub notifications: Vec<Tagged<Notification>>,
    pub links: Vec<Tagged<Link>>,
    pub prompts: Vec<Tagged<Prompt>>,
}

/// Values that can be copied out of the index.
pub trait Duplicate: Sized {
    fn duplicate(&self) -> (r: Self)
        ensures
            r == *self,
    ;
}

impl Duplicate for MediaEntry {
    fn duplicate(&self) -> (r: Self) {
        MediaEntry {
            id: self.id,
            path: self.path.clone(),
            media_type: self.media_type,
            category: self.category,
            offset: self.offset,
            length: self.length,
            width: self.width,
            height: self.height,
            duration: self.duration,
        }
    }
}

impl Duplicate for Notification {
    fn duplicate(&self) -> (r: Self) {
        Notification { summary: copy_opt_string(&self.summary), body: self.body.clone() }
    }
}

impl Duplicate for Link {
    fn duplicate(&self) -> (r: Self) {
        Link { link: self.link.clone() }
    }
}

impl Duplicate for Prompt {
    fn duplicate(&self) -> (r: Self) {
        Prompt { prompt: self.prompt.clone() }
    }
}

/// A condition on the rows of one table, besides their tags.
pub trait RowFilter<T> {
    spec fn accepts(&self, item: T) -> bool;

    fn check(&self, item: &T) -> (r: bool)
        ensures
            r == self.accepts(*item),
    ;
}

/// Accepts every row.
pub struct AnyRow;

impl<T> RowFilter<T> for AnyRow {
    open spec fn accepts(&self, item: T) -> bool {
        true
    }

    fn check(&self, item: &T) -> (r: bool) {
        true
    }
}

/// Which media entries a query draws from.
#[derive(Debug, Clone, Copy, PartialEq, Eq, Structural)]
pub enum MediaFilter {
    /// Entries of one kind.
    OfType(MediaType),
    /// Images and videos of the popup category.
    Popup,
    /// Entries of the wallpaper category.
    Wallpaper,
}

impl RowFilter<MediaEntry> for MediaFilter {
    open spec fn accepts(&self, item: MediaEntry) -> bool {
        match *self {
            MediaFilter::OfType(t) => item.media_type == t,
            MediaFilter::Popup => (item.media_type == MediaType::Image || item.media_type
                == MediaType::Video) && item.category == MediaCategory::Popup,
            MediaFilter::Wallpaper => item.category == MediaCategory::Wallpaper,
        }
    }

    fn check(&self, item: &MediaEntry) -> (r: bool) {
        match self {
            MediaFilter::OfType(t) => item.media_type == *t,
            MediaFilter::Popup => (item.media_type == MediaType::Image || item.media_type
                == MediaType::Video) && item.category == MediaCategory::Popup,
            MediaFilter::Wallpaper => item.category == MediaCategory::Wallpaper,
        }
    }
}

pub open spec fn opt_view(tags: Option<Vec<String>>) -> Option<Seq<String>> {
    match tags {
        Some(v) => Some(v@),
        None => None,
    }
}

/// `id` is the id of a declared tag whose name is among `names`.
pub open spec fn names_tag(dict: Seq<Tag>, names: Seq<String>, id: u64) -> bool {
    exists|k: int, n: int|
        0 <= k < dict.len() && 0 <= n < names.len() && #[trigger] dict[k].id == id
            && dict[k].name@ == #[trigger] names[n]@
}

/// Without requested tags every row matches; with them, a row matches where one of its
/// tags is requested by name. Names that are not declared match nothing.
pub open spec fn tags_match(dict: Seq<Tag>, ids: Seq<u64>, tags: Option<Seq<String>>) -> bool {
    match tags {
        None => true,
        Some(names) => exists|j: int| 0 <= j < ids.len() && names_tag(dict, names, #[trigger] ids[j]),
    }
}

pub open spec fn row_matches<T, F: RowFilter<T>>(
    dict: Seq<Tag>,
    f: F,
    tags: Option<Seq<String>>,
    row: Tagged<T>,
) -> bool {
    f.accepts(row.item) && tags_match(dict, row.tag_ids@, tags)
}

/// The positions, in order, of the rows that match.
pub open spec fn matching_rows<T, F: RowFilter<T>>(
    dict: Seq<Tag>,
    f: F,
    tags: Option<Seq<String>>,
    rows: Seq<Tagged<T>>,
) -> Seq<int>
    decreases rows.len(),
{
    if rows.len() == 0 {
        Seq::empty()
    } else {
        let prev = matching_rows(dict, f, tags, rows.drop_last());
        if row_matches(dict, f, tags, rows.last()) {
            prev.push(rows.len() - 1)
        } else {
            prev
        }
    }
}

/// The row that a draw of `choice` selects: the matching row at position `choice`
/// modulo their number; `None` where no row matches.
pub open spec fn chosen<T, F: RowFilter<T>>(
    dict: Seq<Tag>,
    f: F,
    tags: Option<Seq<String>>,
    rows: Seq<Tagged<T>>,
    choice: int,
) -> Option<T> {
    let c = matching_rows(dict, f, tags, rows);
    if c.len() == 0 {
        None
    } else {
        Some(rows[c[choice % (c.len() as int)]].item)
    }
}

proof fn lemma_matching_rows<T, F: RowFilter<T>>(
    dict: Seq<Tag>,
    f: F,
    tags: Option<Seq<String>>,
    rows: Seq<Tagged<T>>,
)
    ensures
        forall|k: int|
            0 <= k < matching_rows(dict, f, tags, rows).len() ==> 0 <= #[trigger] matching_rows(
                dict,
                f,
                tags,
                rows,
            )[k] < rows.len() && row_matches(
                dict,
                f,
                tags,
                rows[matching_rows(dict, f, tags, rows)[k]],
            ),
        (exists|i: int| 0 <= i < rows.len() && row_matches(dict, f, tags, #[trigger] rows[i]))
            ==> matching_rows(dict, f, tags, rows).len() > 0,
    decreases rows.len(),
{
    if rows.len() > 0 {
        let prev = rows.drop_last();
        lemma_matching_rows(dict, f, tags, prev);
        let m = matching_rows(dict, f, tags, rows);
        let pm = matching_rows(dict, f, tags, prev);
        assert forall|k: int| 0 <= k < m.len() implies 0 <= #[trigger] m[k] < rows.len()
            && row_matches(dict, f, tags, rows[m[k]]) by {
            if k < pm.len() {
                assert(m[k] == pm[k]);
                assert(rows[pm[k]] == prev[pm[k]]);
            }
        }
        if exists|i: int| 0 <= i < rows.len() && row_matches(dict, f, tags, #[trigger] rows[i]) {
            let i = choose|i: int| 0 <= i < rows.len() && row_matches(dict, f, tags, #[trigger] rows[i]);
            if i < rows.len() - 1 {
                assert(prev[i] == rows[i]);
            }
        }
    }
}

/// Whether `x` is among `v`.
pub(crate) fn contains_id(v: &Vec<u64>, x: u64) -> (r: bool)
    ensures
        r == v@.contains(x),
{
    let mut i: usize = 0;
    while i < v.len()
        invariant
            i <= v@.len(),
            forall|k: int| 0 <= k < i ==> v@[k] != x,
        decreases v@.len() - i,
    {
        if v[i] == x {
            return true;
        }
        i = i + 1;
    }
    false
}

/// Whether some name of the list equals `name`.
fn name_listed(names: &Vec<String>, name: &String) -> (r: bool)
    ensures
        r == exists|n: int| 0 <= n < names@.len() && names@[n]@ == name@,
{
    let mut i: usize = 0;
    while i < names.len()
        invariant
            i <= names@.len(),
            forall|k: int| 0 <= k < i ==> names@[k]@ != name@,
        decreases names@.len() - i,
    {
        if names[i] == *name {
            return true;
        }
        i = i + 1;
    }
    false
}

/// The ids of the declared tags whose names are among `names`.
pub fn requested_ids(dict: &Vec<Tag>, names: &Vec<String>) -> (r: Vec<u64>)
    ensures
        forall|id: u64| r@.contains(id) <==> names_tag(dict@, names@, id),
{
    let mut out: Vec<u64> = Vec::new();
    let mut i: usize = 0;
    while i < dict.len()
        invariant
            i <= dict@.len(),
            forall|id: u64|
                out@.contains(id) <==> exists|k: int, n: int|
                    0 <= k < i && 0 <= n < names@.len() && #[trigger] dict@[k].id == id && dict@[k].name@
                        == #[trigger] names@[n]@,
        decreases dict@.len() - i,
    {
        let listed = name_listed(names, &dict[i].name);
        let ghost before = out@;
        if listed {
            out.push(dict[i].id);
        }
        assert forall|id: u64|
            out@.contains(id) <==> exists|k: int, n: int|
                0 <= k < i + 1 && 0 <= n < names@.len() && #[trigger] dict@[k].id == id
                    && dict@[k].name@ == #[trigger] names@[n]@ by {
            if out@.contains(id) {
                if before.contains(id) {
                } else {
                    assert(listed && id == dict@[i as int].id);
                    let n = choose|n: int| 0 <= n < names@.len() && names@[n]@ == dict@[i as int].name@;
                    assert(dict@[i as int].id == id && dict@[i as int].name@ == names@[n]@);
                }
            }
            if exists|k: int, n: int|
                0 <= k < i + 1 && 0 <= n < names@.len() && #[trigger] dict@[k].id == id
                    && dict@[k].name@ == #[trigger] names@[n]@ {
                let (k, n) = choose|k: int, n: int|
                    0 <= k < i + 1 && 0 <= n < names@.len() && #[trigger] dict@[k].id == id
                        && dict@[k].name@ == #[trigger] names@[n]@;
                if k < i {
                    assert(before.contains(id));
                    let j = choose|j: int| 0 <= j < before.len() && before[j] == id;
                    assert(out@[j] == id);
                } else {
                    assert(listed);
                    assert(out@[out@.len() - 1] == id);
                }
            }
        }
        i = i + 1;
    }
    out
}

/// Whether a row with these tag ids matches the requested ids (`None`: every row).
fn ids_match(ids: &Vec<u64>, wanted: &Option<Vec<u64>>) -> (r: bool)
    ensures
        wanted is None ==> r,
        wanted matches Some(w) ==> r == exists|j: int| 0 <= j < ids@.len() && w@.contains(#[trigger] ids@[j]),
{
    match wanted {
        None => true,
        Some(w) => {
            let mut j: usize = 0;
            while j < ids.len()
                invariant
                    j <= ids@.len(),
                    *wanted == Some(*w),
                    forall|k: int| 0 <= k < j ==> !w@.contains(#[trigger] ids@[k]),
                decreases ids@.len() - j,
            {
                if contains_id(w, ids[j]) {
                    assert(w@.contains(ids@[j as int]));
                    return true;
                }
                j = j + 1;
            }
            false
        },
    }
}

/// The positions, in order, of the rows that the filter accepts and whose tags match.
pub fn find_rows<T, F: RowFilter<T>>(
    dict: &Vec<Tag>,
    f: &F,
    tags: &Option<Vec<String>>,
    rows: &Vec<Tagged<T>>,
) -> (r: Vec<usize>)
    ensures
        r@.len() == matching_rows(dict@, *f, opt_view(*tags), rows@).len(),
        forall|k: int|
            0 <= k < r@.len() ==> r@[k] as int == #[trigger] matching_rows(
                dict@,
                *f,
                opt_view(*tags),
                rows@,
            )[k],
{
    let wanted: Option<Vec<u64>> = match tags {
        Some(names) => Some(requested_ids(dict, names)),
        None => None,
    };
    let ghost tv = opt_view(*tags);
    let mut out: Vec<usize> = Vec::new();
    let mut i: usize = 0;
    while i < rows.len()
        invariant
            i <= rows@.len(),
            tv == opt_view(*tags),
            wanted is None <==> tags is None,
            wanted matches Some(w) ==> (tags matches Some(names) && forall|id: u64|
                w@.contains(id) <==> names_tag(dict@, names@, id)),
            out@.len() == matching_rows(dict@, *f, tv, rows@.subrange(0, i as int)).len(),
            forall|k: int|
                0 <= k < out@.len() ==> out@[k] as int == #[trigger] matching_rows(
                    dict@,
                    *f,
                    tv,
                    rows@.subrange(0, i as int),
                )[k],
        decreases rows@.len() - i,
    {
        let row = &rows[i];
        let ok = f.check(&row.item) && ids_match(&row.tag_ids, &wanted);
        let ghost sub = rows@.subrange(0, i + 1);
        assert(sub.drop_last() =~= rows@.subrange(0, i as int));
        assert(sub.last() == rows@[i as int]);
        proof {
            if f.accepts(row.item) {
                if wanted is Some {
                    {
                        let w = wanted->0;
                        let names = tags->0;
                        if exists|j: int| 0 <= j < row.tag_ids@.len() && w@.contains(#[trigger] row.tag_ids@[j]) {
                            let j = choose|j: int| 0 <= j < row.tag_ids@.len() && w@.contains(#[trigger] row.tag_ids@[j]);
                            assert(names_tag(dict@, names@, row.tag_ids@[j]));
                        }
                        if tags_match(dict@, row.tag_ids@, tv) {
                            let j = choose|j: int| 0 <= j < row.tag_ids@.len() && names_tag(dict@, names@, #[trigger] row.tag_ids@[j]);
                            assert(w@.contains(row.tag_ids@[j]));
                        }
                    }
                }
            }
            assert(ok == row_matches(dict@, *f, tv, rows@[i as int]));
        }
        if ok {
            out.push(i);
        }
        i = i + 1;
    }
    assert(rows@.subrange(0, rows@.len() as int) =~= rows@);
    out
}

/// The row that a draw of `choice` selects among the matching rows (position `choice`
/// modulo their number); `None` where no row matches.
pub fn select_row<T: Duplicate, F: RowFilter<T>>(
    dict: &Vec<Tag>,
    f: &F,
    tags: &Option<Vec<String>>,
    rows: &Vec<Tagged<T>>,
    choice: usize,
) -> (r: Option<T>)
    ensures
        r == chosen(dict@, *f, opt_view(*tags), rows@, choice as int),
{
    let found = find_rows(dict, f, tags, rows);
    proof {
        lemma_matching_rows(dict@, *f, opt_view(*tags), rows@);
    }
    if found.len() == 0 {
        return None;
    }
    let k = choice % found.len();
    let at = found[k];
    Some(rows[at].item.duplicate())
}

/// Relies on `rand::random_range`: a number drawn from `0 .. n`.
#[verifier::external_body]
fn random_below(n: usize) -> (r: usize)
    requires
        n > 0,
    ensures
        r < n,
{
    rand::random_range(0..n)
}

/// A row drawn at random among the rows that the filter accepts and whose tags match;
/// `None` exactly where no row matches.
pub fn random_row<T: Duplicate, F: RowFilter<T>>(
    dict: &Vec<Tag>,
    f: &F,
    tags: &Option<Vec<String>>,
    rows: &Vec<Tagged<T>>,
) -> (r: Option<T>)
    ensures
        r is None <==> !exists|i: int|
            0 <= i < rows@.len() && row_matches(dict@, *f, opt_view(*tags), #[trigger] rows@[i]),
        r matches Some(x) ==> exists|i: int|
            0 <= i < rows@.len() && row_matches(dict@, *f, opt_view(*tags), #[trigger] rows@[i])
                && rows@[i].item == x,
{
    let found = find_rows(dict, f, tags, rows);
    proof {
        lemma_matching_rows(dict@, *f, opt_view(*tags), rows@);
    }
    if found.len() == 0 {
        return None;
    }
    let k = random_below(found.len());
    let at = found[k];
    let ghost m = matching_rows(dict@, *f, opt_view(*tags), rows@);
    assert(m[k as int] == at as int);
    assert(row_matches(dict@, *f, opt_view(*tags), rows@[at as int]));
    Some(rows[at].item.duplicate())
}

impl PackIndex {
    /// A random entry of the given kind, among those with one of the requested tags
    /// where tags are given; `None` exactly where no entry qualifies.
    pub fn random_of_type(&self, media_type: MediaType, tags: &Option<Vec<String>>) -> (r: Option<
        MediaEntry,
    >)
        ensures
            r is None <==> !exists|i: int|
                0 <= i < self.media@.len() && row_matches(
                    self.tags@,
                    MediaFilter::OfType(media_type),
                    opt_view(*tags),
                    #[trigger] self.media@[i],
                ),
            r matches Some(e) ==> exists|i: int|
                0 <= i < self.media@.len() && row_matches(
                    self.tags@,
                    MediaFilter::OfType(media_type),
                    opt_view(*tags),
                    #[trigger] self.media@[i],
                ) && self.media@[i].item == e,
    {
        random_row(&self.tags, &MediaFilter::OfType(media_type), tags, &self.media)
    }

    /// A random image or video of the popup category, filtered by tags as
    /// `random_of_type` is.
    pub fn random_popup(&self, tags: &Option<Vec<String>>) -> (r: Option<MediaEntry>)
        ensures
            r is None <==> !exists|i: int|
                0 <= i < self.media@.len() && row_matches(
                    self.tags@,
                    MediaFilter::Popup,
                    opt_view(*tags),
                    #[trigger] self.media@[i],
                ),
            r matches Some(e) ==> exists|i: int|
                0 <= i < self.media@.len() && row_matches(
                    self.tags@,
                    MediaFilter::Popup,
                    opt_view(*tags),
                    #[trigger] self.media@[i],
                ) && self.media@[i].item == e,
    {
        random_row(&self.tags, &MediaFilter::Popup, tags, &self.media)
    }

    /// A random entry of the wallpaper category, filtered by tags as `random_of_type` is.
    pub fn random_wallpaper(&self, tags: &Option<Vec<String>>) -> (r: Option<MediaEntry>)
        ensures
            r is None <==> !exists|i: int|
                0 <= i < self.media@.len() && row_matches(
                    self.tags@,
                    MediaFilter::Wallpaper,
                    opt_view(*tags),
                    #[trigger] self.media@[i],
                ),
            r matches Some(e) ==> exists|i: int|
                0 <= i < self.media@.len() && row_matches(
                    self.tags@,
                    MediaFilter::Wallpaper,
                    opt_view(*tags),
                    #[trigger] self.media@[i],
                ) && self.media@[i].item == e,
    {
        random_row(&self.tags, &MediaFilter::Wallpaper, tags, &self.media)
    }

    /// A random notification, filtered by tags as `random_of_type` is.
    pub fn random_notification(&self, tags: &Option<Vec<String>>) -> (r: Option<Notification>)
        ensures
            r is None <==> !exists|i: int|
                0 <= i < self.notifications@.len() && row_matches(
                    self.tags@,
                    AnyRow,
                    opt_view(*tags),
                    #[trigger] self.notifications@[i],
                ),
            r matches Some(e) ==> exists|i: int|
                0 <= i < self.notifications@.len() && row_matches(
                    self.tags@,
                    AnyRow,
                    opt_view(*tags),
                    #[trigger] self.notifications@[i],
                ) && self.notifications@[i].item == e,
    {
        random_row(&self.tags, &AnyRow, tags, &self.notifications)
    }

    /// A random link, filtered by tags as `random_of_type` is.
    pub fn random_link(&self, tags: &Option<Vec<String>>) -> (r: Option<Link>)
        ensures
            r is None <==> !exists|i: int|
                0 <= i < self.links@.len() && row_matches(
                    self.tags@,
                    AnyRow,
                    opt_view(*tags),
                    #[trigger] self.links@[i],
                ),
            r matches Some(e) ==> exists|i: int|
                0 <= i < self.links@.len() && row_matches(
                    self.tags@,
                    AnyRow,
                    opt_view(*tags),
                    #[trigger] self.links@[i],
                ) && self.links@[i].item == e,
    {
        random_row(&self.tags, &AnyRow, tags, &self.links)
    }

    /// A random prompt, filtered by tags as `random_of_type` is.
    pub fn random_prompt(&self, tags: &Option<Vec<String>>) -> (r: Option<Prompt>)
        ensures
            r is None <==> !exists|i: int|
                0 <= i < self.prompts@.len() && row_matches(
                    self.tags@,
                    AnyRow,
                    opt_view(*tags),
                    #[trigger] self.prompts@[i],
                ),
            r matches Some(e) ==> exists|i: int|
                0 <= i < self.prompts@.len() && row_matches(
                    self.tags@,
                    AnyRow,
                    opt_view(*tags),
                    #[trigger] self.prompts@[i],
                ) && self.prompts@[i].item == e,
    {
        random_row(&self.tags, &AnyRow, tags, &self.prompts)
    }
}

/// Some string of the list holds `t`.
pub open spec fn has_name(names: Seq<String>, t: Seq<char>) -> bool {
    exists|n: int| 0 <= n < names.len() && names[n]@ == t
}

/// Some declared tag named `t` has its id among `ids`.
pub open spec fn named_in(dict: Seq<Tag>, ids: Seq<u64>, t: Seq<char>) -> bool {
    exists|k: int| 0 <= k < dict.len() && dict[k].name@ == t && ids.contains(dict[k].id)
}

/// `names` holds exactly the names of the declared tags whose ids are among `ids`.
pub open spec fn names_are(dict: Seq<Tag>, ids: Seq<u64>, names: Seq<String>) -> bool {
    forall|t: Seq<char>|
        #![trigger has_name(names, t)]
        #![trigger named_in(dict, ids, t)]
        has_name(names, t) <==> named_in(dict, ids, t)
}

/// The names of the declared tags whose ids are among `ids`, in dictionary order.
pub fn tag_names_of(dict: &Vec<Tag>, ids: &Vec<u64>) -> (r: Vec<String>)
    ensures
        names_are(dict@, ids@, r@),
{
    let mut out: Vec<String> = Vec::new();
    let mut k: usize = 0;
    while k < dict.len()
        invariant
            k <= dict@.len(),
            names_are(dict@.subrange(0, k as int), ids@, out@),
        decreases dict@.len() - k,
    {
        let ghost before = out@;
        let ghost d0 = dict@.subrange(0, k as int);
        let ghost d1 = dict@.subrange(0, k + 1);
        let has = contains_id(ids, dict[k].id);
        if has {
            out.push(dict[k].name.clone());
        }
        assert forall|t: Seq<char>| has_name(out@, t) <==> named_in(d1, ids@, t) by {
            if has_name(out@, t) {
                let n = choose|n: int| 0 <= n < out@.len() && out@[n]@ == t;
                if n < before.len() {
                    assert(has_name(before, t));
                    let m = choose|m: int| 0 <= m < d0.len() && d0[m].name@ == t && ids@.contains(d0[m].id);
                    assert(d1[m] == d0[m]);
                } else {
                    assert(d1[k as int].name@ == t);
                }
            }
            if named_in(d1, ids@, t) {
                let m = choose|m: int| 0 <= m < d1.len() && d1[m].name@ == t && ids@.contains(d1[m].id);
                if m < k {
                    assert(d0[m] == d1[m]);
                    assert(named_in(d0, ids@, t));
                    let n = choose|n: int| 0 <= n < before.len() && before[n]@ == t;
                    assert(out@[n]@ == t);
                } else {
                    assert(out@[out@.len() - 1]@ == t);
                }
            }
        }
        k = k + 1;
    }
    assert(dict@.subrange(0, dict@.len() as int) =~= dict@);
    out
}

impl PackIndex {
    /// Every media entry once, ordered by path (character by character), with the
    /// names of its tags.
    pub fn get_all_entries(&self) -> (r: Vec<(MediaEntry, Vec<String>)>)
        ensures
            r@.len() == self.media@.len(),
            exists|order: Seq<int>|
                #![trigger order.len()]
                order.len() == r@.len() && order.no_duplicates() && forall|i: int|
                    0 <= i < r@.len() ==> 0 <= #[trigger] order[i] < self.media@.len() && r@[i].0
                        == self.media@[order[i]].item && names_are(
                        self.tags@,
                        self.media@[order[i]].tag_ids@,
                        r@[i].1@,
                    ),
            forall|i: int, j: int|
                0 <= i <= j < r@.len() ==> text_le(#[trigger] r@[i].0.path@, #[trigger] r@[j].0.path@),
    {
        let order = self.order_by_path();
        let mut out: Vec<(MediaEntry, Vec<String>)> = Vec::new();
        let mut i: usize = 0;
        while i < order.len()
            invariant
                i <= order@.len(),
                order@.len() == self.media@.len(),
                order@.no_duplicates(),
                forall|m: int| 0 <= m < order@.len() ==> #[trigger] order@[m] < self.media@.len(),
                forall|a: int, b: int|
                    0 <= a <= b < order@.len() ==> text_le(
                        self.media@[#[trigger] order@[a] as int].item.path@,
                        self.media@[#[trigger] order@[b] as int].item.path@,
                    ),
                out@.len() == i,
                forall|m: int|
                    0 <= m < i ==> (#[trigger] out@[m]).0 == self.media@[order@[m] as int].item
                        && names_are(self.tags@, self.media@[order@[m] as int].tag_ids@, out@[m].1@),
            decreases order@.len() - i,
        {
            let row = &self.media[order[i]];
            out.push((row.item.duplicate(), tag_names_of(&self.tags, &row.tag_ids)));
            i = i + 1;
        }
        let ghost ord = order@.map_values(|k: usize| k as int);
        assert(ord.no_duplicates()) by {
            assert forall|a: int, b: int| 0 <= a < ord.len() && 0 <= b < ord.len() && a != b implies ord[a]
                != ord[b] by {
                assert(order@[a] != order@[b]);
            }
        }
        assert(ord.len() == out@.len());
        assert forall|a: int, b: int| 0 <= a <= b < out@.len() implies text_le(
            #[trigger] out@[a].0.path@,
            #[trigger] out@[b].0.path@,
        ) by {
            assert(text_le(
                self.media@[order@[a] as int].item.path@,
                self.media@[order@[b] as int].item.path@,
            ));
        }
        out
    }

    /// Every media entry of one kind, in index order.
    pub fn get_entries_by_type(&self, media_type: MediaType) -> (r: Vec<MediaEntry>)
        ensures
            r@ == self.media@.filter(|t: Tagged<MediaEntry>| t.item.media_type == media_type).map_values(
                |t: Tagged<MediaEntry>| t.item,
            ),
    {
        let ghost keep = |t: Tagged<MediaEntry>| t.item.media_type == media_type;
        let ghost item = |t: Tagged<MediaEntry>| t.item;
        let mut out: Vec<MediaEntry> = Vec::new();
        let mut i: usize = 0;
        while i < self.media.len()
            invariant
                i <= self.media@.len(),
                keep == (|t: Tagged<MediaEntry>| t.item.media_type == media_type),
                item == (|t: Tagged<MediaEntry>| t.item),
                out@ == self.media@.subrange(0, i as int).filter(keep).map_values(item),
            decreases self.media@.len() - i,
        {
            let ghost sub = self.media@.subrange(0, i + 1);
            assert(sub.drop_last() =~= self.media@.subrange(0, i as int));
            reveal(Seq::filter);
            if self.media[i].item.media_type == media_type {
                out.push(self.media[i].item.duplicate());
            }
            i = i + 1;
            assert(out@ =~= self.media@.subrange(0, i as int).filter(keep).map_values(item));
        }
        assert(self.media@.subrange(0, self.media@.len() as int) =~= self.media@);
        out
    }

    /// The first media entry stored under `path`, if any.
    pub fn get_entry_by_path(&self, path: &str) -> (r: Option<MediaEntry>)
        ensures
            r is None <==> forall|i: int| 0 <= i < self.media@.len() ==> (#[trigger] self.media@[i]).item.path@ != path@,
            r matches Some(e) ==> exists|i: int|
                0 <= i < self.media@.len() && (#[trigger] self.media@[i]).item == e && e.path@ == path@
                    && forall|k: int| 0 <= k < i ==> self.media@[k].item.path@ != path@,
    {
        let mut i: usize = 0;
        while i < self.media.len()
            invariant
                i <= self.media@.len(),
                forall|k: int| 0 <= k < i ==> (#[trigger] self.media@[k]).item.path@ != path@,
            decreases self.media@.len() - i,
        {
            if crate::types::same_text(self.media[i].item.path.as_str(), path) {
                let e = self.media[i].item.duplicate();
                assert(self.media@[i as int].item == e);
                return Some(e);
            }
            i = i + 1;
        }
        None
    }

    /// The positions of the media rows, ordered by path.
    fn order_by_path(&self) -> (r: Vec<usize>)
        ensures
            r@.len() == self.media@.len(),
            r@.no_duplicates(),
            forall|m: int| 0 <= m < r@.len() ==> #[trigger] r@[m] < self.media@.len(),
            forall|a: int, b: int|
                0 <= a <= b < r@.len() ==> text_le(
                    self.media@[#[trigger] r@[a] as int].item.path@,
                    self.media@[#[trigger] r@[b] as int].item.path@,
                ),
    {
        let mut out: Vec<usize> = Vec::new();
        let mut i: usize = 0;
        while i < self.media.len()
            invariant
                i <= self.media@.len(),
                out@.len() == i,
                out@.no_duplicates(),
                forall|m: int| 0 <= m < out@.len() ==> #[trigger] out@[m] < i,
                forall|a: int, b: int|
                    0 <= a <= b < out@.len() ==> text_le(
                        self.media@[#[trigger] out@[a] as int].item.path@,
                        self.media@[#[trigger] out@[b] as int].item.path@,
                    ),
            decreases self.media@.len() - i,
        {
            let path = self.media[i].item.path.as_str();
            let mut k: usize = 0;
            while k < out.len() && text_le_exec(self.media[out[k]].item.path.as_str(), path)
                invariant
                    k <= out@.len(),
                    i < self.media@.len(),
                    path@ == self.media@[i as int].item.path@,
                    forall|m: int| 0 <= m < out@.len() ==> #[trigger] out@[m] < i,
                    forall|m: int|
                        0 <= m < k ==> text_le(self.media@[#[trigger] out@[m] as int].item.path@, path@),
                decreases out@.len() - k,
            {
                k = k + 1;
            }
            let ghost before = out@;
            proof {
                if k < before.len() {
                    lemma_text_le_total(self.media@[before[k as int] as int].item.path@, path@, 0);
                }
                assert forall|m: int| k <= m < before.len() implies text_le(
                    path@,
                    self.media@[#[trigger] before[m] as int].item.path@,
                ) by {
                    lemma_text_le_trans(
                        path@,
                        self.media@[before[k as int] as int].item.path@,
                        self.media@[before[m] as int].item.path@,
                        0,
                    );
                }
            }
            out.insert(k, i);
            proof {
                assert forall|a: int, b: int|
                    0 <= a <= b < out@.len() implies text_le(
                    self.media@[#[trigger] out@[a] as int].item.path@,
                    self.media@[#[trigger] out@[b] as int].item.path@,
                ) by {
                    if a < k && b > k {
                        lemma_text_le_trans(
                            self.media@[out@[a] as int].item.path@,
                            path@,
                            self.media@[out@[b] as int].item.path@,
                            0,
                        );
                    }
                    if a == b {
                        lemma_text_le_refl(self.media@[out@[a] as int].item.path@, 0);
                    }
                }
                assert forall|a: int, b: int|
                    0 <= a < out@.len() && 0 <= b < out@.len() && a != b implies out@[a] != out@[b] by {
                    if a != k && b != k {
                        let a0 = if a < k { a } else { a - 1 };
                        let b0 = if b < k { b } else { b - 1 };
                        assert(before[a0] != before[b0]);
                    }
                }
            }
            i = i + 1;
        }
        out
    }

    /// The entry that a draw of `choice` selects among the entries that the filter
    /// accepts and whose tags match (position `choice` modulo their number).
    pub fn select_media(&self, filter: MediaFilter, tags: &Option<Vec<String>>, choice: usize) -> (r:
        Option<MediaEntry>)
        ensures
            r == chosen(self.tags@, filter, opt_view(*tags), self.media@, choice as int),
    {
        select_row(&self.tags, &filter, tags, &self.media, choice)
    }
}

/// `a` comes no later than `b` when both are compared character by character from
/// position `i` on (a prefix comes first).
pub open spec fn text_le_from(a: Seq<char>, b: Seq<char>, i: int) -> bool
    decreases a.len() - i,
{
    if i < 0 || i >= a.len() {
        true
    } else if i >= b.len() {
        false
    } else if a[i] != b[i] {
        a[i] < b[i]
    } else {
        text_le_from(a, b, i + 1)
    }
}

/// `a` comes no later than `b` in character order.
pub open spec fn text_le(a: Seq<char>, b: Seq<char>) -> bool {
    text_le_from(a, b, 0)
}

proof fn lemma_text_le_refl(a: Seq<char>, i: int)
    requires
        0 <= i,
    ensures
        text_le_from(a, a, i),
    decreases a.len() - i,
{
    if i < a.len() {
        lemma_text_le_refl(a, i + 1);
    }
}

proof fn lemma_text_le_total(a: Seq<char>, b: Seq<char>, i: int)
    requires
        0 <= i,
    ensures
        text_le_from(a, b, i) || text_le_from(b, a, i),
    decreases a.len() - i,
{
    if i < a.len() && i < b.len() && a[i] == b[i] {
        lemma_text_le_total(a, b, i + 1);
    }
}

proof fn lemma_text_le_trans(a: Seq<char>, b: Seq<char>, c: Seq<char>, i: int)
    requires
        0 <= i,
        text_le_from(a, b, i),
        text_le_from(b, c, i),
    ensures
        text_le_from(a, c, i),
    decreases a.len() - i,
{
    if i < a.len() && i < b.len() && i < c.len() && a[i] == b[i] && b[i] == c[i] {
        lemma_text_le_trans(a, b, c, i + 1);
    }
}

/// Whether `a` comes no later than `b` in character order.
pub fn text_le_exec(a: &str, b: &str) -> (r: bool)
    ensures
        r == text_le(a@, b@),
{
    let n = a.unicode_len();
    let m = b.unicode_len();
    let mut i: usize = 0;
    while i < n
        invariant
            n == a@.len(),
            m == b@.len(),
            i <= n,
            text_le(a@, b@) == text_le_from(a@, b@, i as int),
        decreases n - i,
    {
        if i >= m {
            return false;
        }
        let x = a.get_char(i);
        let y = b.get_char(i);
        if x != y {
            return x < y;
        }
        i = i + 1;
    }
    true
}

} // verus!
