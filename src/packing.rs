//! Building a pack's index from the packed assets and the resolved configuration.

use vstd::prelude::*;
use crate::config::Resolved;
use crate::index::{has_name, named_in, names_are, Link, MediaEntry, Notification, PackIndex, Prompt, Tag, Tagged};
use crate::target::{copy_opt_string, Empty, NotificationOpts, ResolvedTarget};
use crate::types::{find_last, last_pos, lemma_last_pos_range, media_type_name, FileType, MediaCategory, MediaType};
use crate::transition::Metadata;
use vstd::string::*;

verus! {

/// An asset as the packer wrote it.
pub struct PackedEntry {
    pub rel_path: String,
    pub media_type: FileType,
    pub category: MediaCategory,
    pub offset: u64,
    pub length: u64,
    pub width: Option<i64>,
    pub height: Option<i64>,
    /// Play time in milliseconds.
    pub duration: Option<i64>,
    pub tags: Vec<String>,
}

/// Why an index could not be built.
#[derive(Debug, PartialEq, Eq)]
pub enum IndexError {
    /// An item carries a tag that the configuration does not declare.
    UnknownTag(String),
}

pub open spec fn media_type_of(t: FileType) -> MediaType {
    match t {
        FileType::Image => MediaType::Image,
        FileType::Video => MediaType::Video,
        FileType::Audio => MediaType::Audio,
        FileType::Other => MediaType::Other,
    }
}

/// The index row of a packed asset, under the given id.
pub open spec fn entry_row(e: PackedEntry, id: int) -> MediaEntry {
    MediaEntry {
        id: id as i64,
        path: e.rel_path,
        media_type: media_type_of(e.media_type),
        category: e.category,
        offset: e.offset,
        length: e.length,
        width: e.width,
        height: e.height,
        duration: e.duration,
    }
}

/// `k` is the first position of the name `t` among `names`.
pub open spec fn first_named(names: Seq<String>, t: Seq<char>, k: int) -> bool {
    0 <= k < names.len() && names[k]@ == t && forall|m: int| 0 <= m < k ==> names[m]@ != t
}

/// `t` is one of the names.
pub open spec fn declared(names: Seq<String>, t: Seq<char>) -> bool {
    exists|k: int| 0 <= k < names.len() && names[k]@ == t
}

pub open spec fn all_declared(names: Seq<String>, tags: Seq<String>) -> bool {
    forall|j: int| 0 <= j < tags.len() ==> declared(names, #[trigger] tags[j]@)
}

/// `ids` holds exactly the ids (position plus one) of the tags named in `tags`.
pub open spec fn ids_for(names: Seq<String>, tags: Seq<String>, ids: Seq<u64>) -> bool {
    forall|id: u64|
        ids.contains(id) <==> exists|j: int|
            0 <= j < tags.len() && first_named(names, #[trigger] tags[j]@, id as int - 1)
}

/// The tag dictionary: each name with its position plus one as id.
pub open spec fn dictionary_of(names: Seq<String>, dict: Seq<Tag>) -> bool {
    dict.len() == names.len() && forall|k: int|
        0 <= k < dict.len() ==> (#[trigger] dict[k]).id == k + 1 && dict[k].name == names[k]
}

/// The position of the first occurrence of `t` among `names`.
fn first_position(names: &Vec<String>, t: &String) -> (r: Option<usize>)
    ensures
        r matches Some(k) ==> first_named(names@, t@, k as int),
        r is None ==> !declared(names@, t@),
{
    let mut k: usize = 0;
    while k < names.len()
        invariant
            k <= names@.len(),
            forall|m: int| 0 <= m < k ==> names@[m]@ != t@,
        decreases names@.len() - k,
    {
        if names[k] == *t {
            return Some(k);
        }
        k = k + 1;
    }
    None
}

/// The ids of the named tags, each once; the first name that is not declared otherwise.
fn tag_ids_of(names: &Vec<String>, tags: &Vec<String>) -> (r: Result<Vec<u64>, String>)
    ensures
        r is Ok <==> all_declared(names@, tags@),
        r matches Ok(ids) ==> ids_for(names@, tags@, ids@) && ids@.no_duplicates(),
        r matches Err(t) ==> !declared(names@, t@),
{
    let mut ids: Vec<u64> = Vec::new();
    let mut j: usize = 0;
    while j < tags.len()
        invariant
            j <= tags@.len(),
            ids@.no_duplicates(),
            forall|m: int| 0 <= m < j ==> declared(names@, #[trigger] tags@[m]@),
            forall|id: u64|
                ids@.contains(id) <==> exists|m: int|
                    0 <= m < j && first_named(names@, #[trigger] tags@[m]@, id as int - 1),
        decreases tags@.len() - j,
    {
        match first_position(names, &tags[j]) {
            None => {
                assert(!all_declared(names@, tags@));
                return Err(tags[j].clone());
            },
            Some(k) => {
                let count = names.len();
                assert(k < count);
                let id = k as u64 + 1;
                let ghost before = ids@;
                let present = crate::index::contains_id(&ids, id);
                if !present {
                    ids.push(id);
                }
                assert forall|x: u64|
                    ids@.contains(x) <==> exists|m: int|
                        0 <= m < j + 1 && first_named(names@, #[trigger] tags@[m]@, x as int - 1) by {
                    if ids@.contains(x) && !before.contains(x) {
                        assert(x == id);
                        assert(first_named(names@, tags@[j as int]@, x as int - 1));
                    }
                    if exists|m: int|
                        0 <= m < j + 1 && first_named(names@, #[trigger] tags@[m]@, x as int - 1) {
                        let m = choose|m: int|
                            0 <= m < j + 1 && first_named(names@, #[trigger] tags@[m]@, x as int - 1);
                        if m < j {
                            assert(0 <= m < j && first_named(names@, tags@[m]@, x as int - 1));
                            assert(before.contains(x));
                            let q = choose|q: int| 0 <= q < before.len() && before[q] == x;
                            assert(ids@[q] == x);
                        } else {
                            if present {
                            } else {
                                assert(ids@[ids@.len() - 1] == x);
                            }
                        }
                    }
                }
            },
        }
        j = j + 1;
    }
    Ok(ids)
}

/// Builds the index of a pack: the declared tags get ids 1, 2, ... in order, the assets
/// ids 1, 2, ... in order, and every row the ids of its tags, each once. Fails on the
/// first tag that an asset, notification, link or prompt carries and that is not
/// declared.
pub fn build_index(
    tag_names: &Vec<String>,
    entries: &Vec<PackedEntry>,
    resolved: &Resolved,
) -> (r: Result<PackIndex, IndexError>)
    requires
        entries@.len() < i64::MAX,
    ensures
        r is Ok <==> (forall|i: int|
            0 <= i < entries@.len() ==> all_declared(tag_names@, (#[trigger] entries@[i]).tags@))
            && (forall|i: int|
            0 <= i < resolved.notifications@.len() ==> all_declared(
                tag_names@,
                (#[trigger] resolved.notifications@[i]).tags@,
            )) && (forall|i: int|
            0 <= i < resolved.links@.len() ==> all_declared(
                tag_names@,
                (#[trigger] resolved.links@[i]).tags@,
            )) && (forall|i: int|
            0 <= i < resolved.prompts@.len() ==> all_declared(
                tag_names@,
                (#[trigger] resolved.prompts@[i]).tags@,
            )),
        r matches Err(IndexError::UnknownTag(t)) ==> !declared(tag_names@, t@),
        r matches Ok(p) ==> {
            &&& dictionary_of(tag_names@, p.tags@)
            &&& p.media@.len() == entries@.len()
            &&& forall|i: int|
                0 <= i < entries@.len() ==> (#[trigger] p.media@[i]).item == entry_row(
                    entries@[i],
                    i + 1,
                ) && ids_for(tag_names@, entries@[i].tags@, p.media@[i].tag_ids@)
                    && p.media@[i].tag_ids@.no_duplicates()
            &&& p.notifications@.len() == resolved.notifications@.len()
            &&& forall|i: int|
                0 <= i < resolved.notifications@.len() ==> (#[trigger] p.notifications@[i]).item
                    == (Notification {
                    summary: resolved.notifications@[i].opts.summary,
                    body: resolved.notifications@[i].primary,
                }) && ids_for(
                    tag_names@,
                    resolved.notifications@[i].tags@,
                    p.notifications@[i].tag_ids@,
                ) && p.notifications@[i].tag_ids@.no_duplicates()
            &&& p.links@.len() == resolved.links@.len()
            &&& forall|i: int|
                0 <= i < resolved.links@.len() ==> (#[trigger] p.links@[i]).item == (Link {
                    link: resolved.links@[i].primary,
                }) && ids_for(tag_names@, resolved.links@[i].tags@, p.links@[i].tag_ids@)
                    && p.links@[i].tag_ids@.no_duplicates()
            &&& p.prompts@.len() == resolved.prompts@.len()
            &&& forall|i: int|
                0 <= i < resolved.prompts@.len() ==> (#[trigger] p.prompts@[i]).item == (Prompt {
                    prompt: resolved.prompts@[i].primary,
                }) && ids_for(tag_names@, resolved.prompts@[i].tags@, p.prompts@[i].tag_ids@)
                    && p.prompts@[i].tag_ids@.no_duplicates()
        },
{
    let mut tags: Vec<Tag> = Vec::new();
    let mut k: usize = 0;
    while k < tag_names.len()
        invariant
            k <= tag_names@.len(),
            tags@.len() == k,
            forall|m: int|
                0 <= m < k ==> (#[trigger] tags@[m]).id == m + 1 && tags@[m].name == tag_names@[m],
        decreases tag_names@.len() - k,
    {
        tags.push(Tag { id: k as u64 + 1, name: tag_names[k].clone() });
        k = k + 1;
    }
    let mut media: Vec<Tagged<MediaEntry>> = Vec::new();
    let mut i: usize = 0;
    while i < entries.len()
        invariant
            i <= entries@.len(),
            entries@.len() < i64::MAX,
            media@.len() == i,
            forall|m: int| 0 <= m < i ==> all_declared(tag_names@, (#[trigger] entries@[m]).tags@),
            forall|m: int|
                0 <= m < i ==> (#[trigger] media@[m]).item == entry_row(entries@[m], m + 1)
                    && ids_for(tag_names@, entries@[m].tags@, media@[m].tag_ids@)
                    && media@[m].tag_ids@.no_duplicates(),
        decreases entries@.len() - i,
    {
        let e = &entries[i];
        let ids = match tag_ids_of(tag_names, &e.tags) {
            Ok(ids) => ids,
            Err(t) => {
                return Err(IndexError::UnknownTag(t));
            },
        };
        let media_type = match e.media_type {
            FileType::Image => MediaType::Image,
            FileType::Video => MediaType::Video,
            FileType::Audio => MediaType::Audio,
            FileType::Other => MediaType::Other,
        };
        let item = MediaEntry {
            id: i as i64 + 1,
            path: e.rel_path.clone(),
            media_type,
            category: e.category,
            offset: e.offset,
            length: e.length,
            width: e.width,
            height: e.height,
            duration: e.duration,
        };
        media.push(Tagged { item, tag_ids: ids });
        i = i + 1;
    }
    let mut notifications: Vec<Tagged<Notification>> = Vec::new();
    let list = &resolved.notifications;
    let mut i: usize = 0;
    while i < list.len()
        invariant
            i <= list@.len(),
            list@ == resolved.notifications@,
            notifications@.len() == i,
            forall|m: int| 0 <= m < i ==> all_declared(tag_names@, (#[trigger] list@[m]).tags@),
            forall|m: int|
                0 <= m < i ==> (#[trigger] notifications@[m]).item == (Notification {
                    summary: list@[m].opts.summary,
                    body: list@[m].primary,
                }) && ids_for(tag_names@, list@[m].tags@, notifications@[m].tag_ids@)
                    && notifications@[m].tag_ids@.no_duplicates(),
        decreases list@.len() - i,
    {
        let n = &list[i];
        let ids = match tag_ids_of(tag_names, &n.tags) {
            Ok(ids) => ids,
            Err(t) => {
                assert(!all_declared(tag_names@, list@[i as int].tags@));
                return Err(IndexError::UnknownTag(t));
            },
        };
        let item = Notification { summary: copy_opt_string(&n.opts.summary), body: n.primary.clone() };
        notifications.push(Tagged { item, tag_ids: ids });
        i = i + 1;
    }
    let mut links: Vec<Tagged<Link>> = Vec::new();
    let list = &resolved.links;
    let mut i: usize = 0;
    while i < list.len()
        invariant
            i <= list@.len(),
            list@ == resolved.links@,
            links@.len() == i,
            forall|m: int| 0 <= m < i ==> all_declared(tag_names@, (#[trigger] list@[m]).tags@),
            forall|m: int|
                0 <= m < i ==> (#[trigger] links@[m]).item == (Link { link: list@[m].primary })
                    && ids_for(tag_names@, list@[m].tags@, links@[m].tag_ids@)
                    && links@[m].tag_ids@.no_duplicates(),
        decreases list@.len() - i,
    {
        let n = &list[i];
        let ids = match tag_ids_of(tag_names, &n.tags) {
            Ok(ids) => ids,
            Err(t) => {
                assert(!all_declared(tag_names@, list@[i as int].tags@));
                return Err(IndexError::UnknownTag(t));
            },
        };
        links.push(Tagged { item: Link { link: n.primary.clone() }, tag_ids: ids });
        i = i + 1;
    }
    let mut prompts: Vec<Tagged<Prompt>> = Vec::new();
    let list = &resolved.prompts;
    let mut i: usize = 0;
    while i < list.len()
        invariant
            i <= list@.len(),
            list@ == resolved.prompts@,
            prompts@.len() == i,
            forall|m: int| 0 <= m < i ==> all_declared(tag_names@, (#[trigger] list@[m]).tags@),
            forall|m: int|
                0 <= m < i ==> (#[trigger] prompts@[m]).item == (Prompt { prompt: list@[m].primary })
                    && ids_for(tag_names@, list@[m].tags@, prompts@[m].tag_ids@)
                    && prompts@[m].tag_ids@.no_duplicates(),
        decreases list@.len() - i,
    {
        let n = &list[i];
        let ids = match tag_ids_of(tag_names, &n.tags) {
            Ok(ids) => ids,
            Err(t) => {
                assert(!all_declared(tag_names@, list@[i as int].tags@));
                return Err(IndexError::UnknownTag(t));
            },
        };
        prompts.push(Tagged { item: Prompt { prompt: n.primary.clone() }, tag_ids: ids });
        i = i + 1;
    }
    Ok(PackIndex { tags, media, notifications, links, prompts })
}

proof fn lemma_first_exists(names: Seq<String>, t: Seq<char>)
    requires
        declared(names, t),
    ensures
        exists|k: int| first_named(names, t, k),
    decreases names.len(),
{
    let prev = names.drop_last();
    if declared(prev, t) {
        lemma_first_exists(prev, t);
        let k = choose|k: int| first_named(prev, t, k);
        assert(prev[k] == names[k]);
        assert forall|m: int| 0 <= m < k implies names[m]@ != t by {
            assert(prev[m] == names[m]);
        }
        assert(first_named(names, t, k));
    } else {
        let last = names.len() - 1;
        assert forall|m: int| 0 <= m < last implies names[m]@ != t by {
            assert(prev[m] == names[m]);
        }
        let k = choose|k: int| 0 <= k < names.len() && names[k]@ == t;
        assert(k == last);
        assert(first_named(names, t, last));
    }
}

/// Round trip through the index: an asset read back from the index built for it keeps
/// its path, kind, category, size and duration, and its tags read back by name are
/// exactly the tags it was packed with (as a set).
pub proof fn lemma_index_round_trip(
    tag_names: Seq<String>,
    entry: PackedEntry,
    id: int,
    dict: Seq<Tag>,
    row: Tagged<MediaEntry>,
    names: Seq<String>,
)
    requires
        dictionary_of(tag_names, dict),
        all_declared(tag_names, entry.tags@),
        row.item == entry_row(entry, id),
        ids_for(tag_names, entry.tags@, row.tag_ids@),
        names_are(dict, row.tag_ids@, names),
    ensures
        row.item.path == entry.rel_path,
        row.item.media_type == media_type_of(entry.media_type),
        row.item.category == entry.category,
        row.item.width == entry.width,
        row.item.height == entry.height,
        row.item.duration == entry.duration,
        forall|t: Seq<char>| #[trigger] has_name(names, t) <==> has_name(entry.tags@, t),
{
    let tags = entry.tags@;
    assert forall|t: Seq<char>| #[trigger] has_name(names, t) <==> has_name(tags, t) by {
        if has_name(names, t) {
            assert(named_in(dict, row.tag_ids@, t));
            let k = choose|k: int|
                0 <= k < dict.len() && #[trigger] dict[k].name@ == t && row.tag_ids@.contains(dict[k].id);
            let id = dict[k].id;
            assert(id as int - 1 == k);
            let j = choose|j: int|
                0 <= j < tags.len() && first_named(tag_names, #[trigger] tags[j]@, id as int - 1);
            assert(tags[j]@ == t);
        }
        if has_name(tags, t) {
            let j = choose|j: int| 0 <= j < tags.len() && tags[j]@ == t;
            assert(declared(tag_names, tags[j]@));
            lemma_first_exists(tag_names, t);
            let k = choose|k: int| first_named(tag_names, t, k);
            let id = dict[k].id;
            assert(id as int - 1 == k);
            assert(first_named(tag_names, tags[j]@, id as int - 1));
            assert(row.tag_ids@.contains(id));
            assert(dict[k].name@ == t);
            assert(named_in(dict, row.tag_ids@, t));
        }
    }
}

/// The editable description of an asset.
pub struct EntryInfo {
    pub path: String,
    pub category: MediaCategory,
    pub width: Option<i64>,
    pub height: Option<i64>,
    /// Play time in milliseconds.
    pub duration: Option<i64>,
}

/// An asset of a pack under its id.
pub struct Entry {
    pub id: u64,
    pub info: EntryInfo,
}

/// What a listing of a pack shows of an asset.
pub struct MediaInfo {
    pub id: i64,
    pub file_type: String,
    pub file_name: String,
    pub category: MediaCategory,
    pub width: Option<i64>,
    pub height: Option<i64>,
    pub duration: Option<i64>,
}

/// The last component of a `/`-separated path.
pub open spec fn file_name_of(p: Seq<char>) -> Seq<char> {
    match last_pos(p, '/', 0, p.len() as int) {
        Some(i) => p.subrange(i + 1, p.len() as int),
        None => p,
    }
}

impl MediaInfo {
    /// The listing line of an index entry: its kind's name and the last component of
    /// its path.
    pub fn from_entry(e: &MediaEntry) -> (r: MediaInfo)
        ensures
            r.id == e.id,
            r.file_type@ == media_type_name(e.media_type),
            r.file_name@ == file_name_of(e.path@),
            r.category == e.category,
            r.width == e.width,
            r.height == e.height,
            r.duration == e.duration,
    {
        let path = e.path.as_str();
        let n = path.unicode_len();
        proof {
            lemma_last_pos_range(path@, '/', 0, n as int);
        }
        let file_name = match find_last(path, '/', 0, n) {
            Some(i) => path.substring_char(i + 1, n).to_string(),
            None => e.path.clone(),
        };
        MediaInfo {
            id: e.id,
            file_type: String::from_str(e.media_type.to_str()),
            file_name,
            category: e.category,
            width: e.width,
            height: e.height,
            duration: e.duration,
        }
    }
}

/// The descriptive part of a pack's metadata.
pub struct PackInfo {
    pub name: String,
    pub creator: Option<String>,
    pub description: Option<String>,
    pub version: Option<String>,
}

impl PackInfo {
    pub fn from_metadata(m: &Metadata) -> (r: PackInfo)
        ensures
            r.name == m.name,
            r.creator == m.creator,
            r.description == m.description,
            r.version == m.version,
    {
        PackInfo {
            name: m.name.clone(),
            creator: copy_opt_string(&m.creator),
            description: copy_opt_string(&m.description),
            version: copy_opt_string(&m.version),
        }
    }
}

/// What a new, empty pack is created with.
pub struct CreatePackDetails {
    pub name: String,
}

} // verus!
