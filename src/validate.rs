//! Checks that a configuration only references declared tags and only holds glob
//! patterns that compile.

use vstd::prelude::*;
use vstd::string::*;
use crate::config::{globs_of, Config, MediaOpts, OneOrMore, PackOpts};
use crate::patterns::{glob_compiles, glob_error};
use crate::target::{items_seq, Either, Item, Items, MergeOpts, Target};
use crate::transition::Metadata;

verus! {

/// What is wrong with a configuration.
pub enum PackOptsError {
    /// A tag is used at `location` that is not declared.
    TagError { location: String, tag: String, valid_tags: Vec<String> },
    /// A glob pattern at `location` does not compile; `pos` and `msg` say where and why.
    GlobError { location: String, glob: String, pos: usize, msg: String },
}

/// A configuration error, with the configuration it was found in: `None` for the root
/// configuration, else the position of the nested one.
pub struct InvalidConfig {
    pub source: Option<usize>,
    pub error: PackOptsError,
}

/// An error reports a real defect of a configuration whose declared tags are `valid`:
/// a tag that is not declared, listed with the declared tags, or a pattern that does not
/// compile.
pub open spec fn reports_defect(e: PackOptsError, valid: Seq<String>) -> bool {
    match e {
        PackOptsError::TagError { tag, valid_tags, .. } => !tag_ok(valid, tag) && valid_tags@ == valid,
        PackOptsError::GlobError { glob, .. } => !glob_compiles(glob@),
    }
}

/// Where in the configuration the error was found.
pub open spec fn error_location(e: PackOptsError) -> Seq<char> {
    match e {
        PackOptsError::TagError { location, .. } => location@,
        PackOptsError::GlobError { location, .. } => location@,
    }
}

pub open spec fn item_tags<Opts>(item: Item<Opts>) -> Seq<String> {
    match item {
        Either::Left(_) => Seq::empty(),
        Either::Right(f) => f.tags@,
    }
}

pub open spec fn item_primary<Opts>(item: Item<Opts>) -> String {
    match item {
        Either::Left(p) => p,
        Either::Right(f) => f.primary,
    }
}

/// The tag or pattern that an error names occurs in the item: the tag among the item's
/// tags, the pattern as its primary where primaries are patterns.
pub open spec fn occurs_in_item<Opts>(e: PackOptsError, item: Item<Opts>, globs: bool) -> bool {
    match e {
        PackOptsError::TagError { tag, .. } => item_tags(item).contains(tag),
        PackOptsError::GlobError { glob, .. } => globs && glob == item_primary(item),
    }
}

pub open spec fn occurs_in_items<Opts>(e: PackOptsError, items: Items<Opts>, globs: bool) -> bool {
    exists|i: int|
        0 <= i < items_seq(items).len() && occurs_in_item(e, #[trigger] items_seq(items)[i], globs)
}

/// The error is a tag error naming one of `tags`.
pub open spec fn names_tag_in(e: PackOptsError, tags: Seq<String>) -> bool {
    match e {
        PackOptsError::TagError { tag, .. } => tags.contains(tag),
        PackOptsError::GlobError { .. } => false,
    }
}

pub open spec fn occurs_in_target<Opts>(e: PackOptsError, t: Target<Opts>, globs: bool) -> bool {
    match t {
        Either::Left(items) => occurs_in_items(e, items, globs),
        Either::Right(wd) => names_tag_in(e, wd.default.tags@) || occurs_in_items(e, wd.items, globs),
    }
}

pub open spec fn occurs_in_opt_target<Opts>(e: PackOptsError, t: Option<Target<Opts>>, globs: bool) -> bool {
    match t {
        Some(t) => occurs_in_target(e, t, globs),
        None => false,
    }
}

/// The tag or pattern that an error names occurs in one of the content blocks.
pub open spec fn occurs_in_media(e: PackOptsError, m: MediaOpts) -> bool {
    ||| occurs_in_opt_target(e, m.popups, true)
    ||| occurs_in_opt_target(e, m.notifications, false)
    ||| occurs_in_opt_target(e, m.links, false)
    ||| occurs_in_opt_target(e, m.prompts, false)
    ||| occurs_in_opt_target(e, m.wallpaper, true)
}

pub open spec fn items_globs_ok<Opts>(items: Items<Opts>) -> bool {
    forall|i: int|
        0 <= i < items_seq(items).len() ==> glob_compiles(item_primary(#[trigger] items_seq(items)[i])@)
}

pub open spec fn opt_target_globs_ok<Opts>(t: Option<Target<Opts>>) -> bool {
    match t {
        Some(Either::Left(items)) => items_globs_ok(items),
        Some(Either::Right(wd)) => items_globs_ok(wd.items),
        None => true,
    }
}

/// Every popup and wallpaper pattern of the blocks compiles.
pub open spec fn media_globs_ok(m: MediaOpts) -> bool {
    opt_target_globs_ok(m.popups) && opt_target_globs_ok(m.wallpaper)
}

/// Some stage of the transition carries the tag.
pub open spec fn transition_names(meta: Metadata, tag: String) -> bool {
    match meta.transition {
        None => false,
        Some(t) => exists|i: int|
            0 <= i < t.items@.len() && match (#[trigger] t.items@[i]).tags {
                Some(v) => v@.contains(tag),
                None => false,
            },
    }
}

/// The tag or pattern that an error names occurs in the root configuration: a tag in
/// the transition or a content block, a pattern in a content block, the tag patterns or
/// the ignore patterns.
pub open spec fn occurs_in_opts(e: PackOptsError, opts: PackOpts) -> bool {
    match e {
        PackOptsError::TagError { tag, .. } => transition_names(opts.metadata, tag) || occurs_in_media(
            e,
            opts.media,
        ),
        PackOptsError::GlobError { glob, .. } => occurs_in_media(e, opts.media) || (exists|i: int|
            0 <= i < opts.tags@.len() && globs_of((#[trigger] opts.tags@[i]).1).contains(glob)) || match opts.ignore {
            Some(o) => globs_of(o).contains(glob),
            None => false,
        },
    }
}

/// Every pattern of the root configuration compiles.
pub open spec fn all_globs_compile(opts: PackOpts) -> bool {
    &&& media_globs_ok(opts.media)
    &&& forall|i: int| 0 <= i < opts.tags@.len() ==> globs_ok((#[trigger] opts.tags@[i]).1)
    &&& match opts.ignore {
        Some(o) => globs_ok(o),
        None => true,
    }
}

pub open spec fn tag_ok(valid: Seq<String>, t: String) -> bool {
    exists|k: int| 0 <= k < valid.len() && valid[k]@ == t@
}

pub open spec fn tags_ok(valid: Seq<String>, tags: Seq<String>) -> bool {
    forall|j: int| 0 <= j < tags.len() ==> tag_ok(valid, #[trigger] tags[j])
}

/// An item's tags are declared, and, where primaries are patterns, its primary compiles.
pub open spec fn item_ok<Opts>(valid: Seq<String>, item: Item<Opts>, globs: bool) -> bool {
    match item {
        Either::Left(p) => !globs || glob_compiles(p@),
        Either::Right(f) => tags_ok(valid, f.tags@) && (!globs || glob_compiles(f.primary@)),
    }
}

pub open spec fn items_ok<Opts>(valid: Seq<String>, items: Items<Opts>, globs: bool) -> bool {
    forall|i: int|
        0 <= i < items_seq(items).len() ==> item_ok(valid, #[trigger] items_seq(items)[i], globs)
}

pub open spec fn target_ok<Opts>(valid: Seq<String>, t: Target<Opts>, globs: bool) -> bool {
    match t {
        Either::Left(items) => items_ok(valid, items, globs),
        Either::Right(wd) => tags_ok(valid, wd.default.tags@) && items_ok(valid, wd.items, globs),
    }
}

pub open spec fn opt_target_ok<Opts>(valid: Seq<String>, t: Option<Target<Opts>>, globs: bool) -> bool {
    match t {
        Some(t) => target_ok(valid, t, globs),
        None => true,
    }
}

/// Every block uses declared tags only; popup and wallpaper primaries are patterns
/// that compile.
pub open spec fn media_ok(valid: Seq<String>, m: MediaOpts) -> bool {
    &&& opt_target_ok(valid, m.popups, true)
    &&& opt_target_ok(valid, m.notifications, false)
    &&& opt_target_ok(valid, m.links, false)
    &&& opt_target_ok(valid, m.prompts, false)
    &&& opt_target_ok(valid, m.wallpaper, true)
}

pub open spec fn transition_ok(valid: Seq<String>, meta: Metadata) -> bool {
    match meta.transition {
        None => true,
        Some(t) => forall|i: int|
            0 <= i < t.items@.len() ==> match (#[trigger] t.items@[i]).tags {
                None => true,
                Some(v) => tags_ok(valid, v@),
            },
    }
}

pub open spec fn globs_ok(o: OneOrMore<String>) -> bool {
    forall|k: int| 0 <= k < globs_of(o).len() ==> glob_compiles(#[trigger] globs_of(o)[k]@)
}

pub open spec fn declared_names(opts: PackOpts) -> Seq<String> {
    opts.tags@.map_values(|t: (String, OneOrMore<String>)| t.0)
}

/// The root configuration references declared tags only and all its patterns compile.
pub open spec fn opts_ok(opts: PackOpts) -> bool {
    let valid = declared_names(opts);
    &&& transition_ok(valid, opts.metadata)
    &&& media_ok(valid, opts.media)
    &&& forall|i: int| 0 <= i < opts.tags@.len() ==> globs_ok((#[trigger] opts.tags@[i]).1)
    &&& match opts.ignore {
        Some(o) => globs_ok(o),
        None => true,
    }
}

fn text(s: &str) -> (r: String)
    ensures
        r@ == s@,
{
    String::from_str(s)
}

/// Fails where `tag` is not among the valid tags.
pub fn check_tag(location: &str, tag: &String, valid_tags: &Vec<String>) -> (r: Result<(), PackOptsError>)
    ensures
        r is Ok <==> tag_ok(valid_tags@, *tag),
        r matches Err(e) ==> e matches PackOptsError::TagError { location: l, tag: t, valid_tags: v }
            && l@ == location@ && t == *tag && v@ == valid_tags@ && !tag_ok(valid_tags@, t),
{
    let mut k: usize = 0;
    while k < valid_tags.len()
        invariant
            k <= valid_tags@.len(),
            forall|m: int| 0 <= m < k ==> valid_tags@[m]@ != tag@,
        decreases valid_tags@.len() - k,
    {
        if valid_tags[k] == *tag {
            return Ok(());
        }
        k = k + 1;
    }
    Err(
        PackOptsError::TagError {
            location: text(location),
            tag: tag.clone(),
            valid_tags: crate::target::copy_strings(valid_tags),
        },
    )
}

/// Fails where the pattern does not compile.
pub fn check_glob(location: &str, glob: &String) -> (r: Result<(), PackOptsError>)
    ensures
        r is Ok <==> glob_compiles(glob@),
        r matches Err(e) ==> e matches PackOptsError::GlobError { location: l, glob: g, .. } && l@
            == location@ && g == *glob && !glob_compiles(g@),
{
    match glob_error(glob.as_str()) {
        None => Ok(()),
        Some((pos, msg)) => Err(
            PackOptsError::GlobError { location: text(location), glob: glob.clone(), pos, msg },
        ),
    }
}

fn check_tags(location: &str, tags: &Vec<String>, valid_tags: &Vec<String>) -> (r: Result<
    (),
    PackOptsError,
>)
    ensures
        r is Ok <==> tags_ok(valid_tags@, tags@),
        r matches Err(e) ==> reports_defect(e, valid_tags@) && error_location(e) == location@ && (
        e matches PackOptsError::TagError { tag: t, .. } && tags@.contains(t)),
{
    let mut j: usize = 0;
    while j < tags.len()
        invariant
            j <= tags@.len(),
            forall|m: int| 0 <= m < j ==> tag_ok(valid_tags@, #[trigger] tags@[m]),
        decreases tags@.len() - j,
    {
        match check_tag(location, &tags[j], valid_tags) {
            Ok(()) => {},
            Err(e) => {
                return Err(e);
            },
        }
        j = j + 1;
    }
    Ok(())
}

fn check_item<Opts>(location: &str, valid_tags: &Vec<String>, item: &Item<Opts>, globs: bool) -> (r:
    Result<(), PackOptsError>)
    ensures
        r is Ok <==> item_ok(valid_tags@, *item, globs),
        r matches Err(e) ==> reports_defect(e, valid_tags@) && error_location(e) == location@,
        r matches Err(e) ==> occurs_in_item(e, *item, globs),
{
    match item {
        Either::Left(p) => {
            if globs {
                check_glob(location, p)
            } else {
                Ok(())
            }
        },
        Either::Right(full) => {
            match check_tags(location, &full.tags, valid_tags) {
                Ok(()) => {},
                Err(e) => {
                    return Err(e);
                },
            }
            if globs {
                check_glob(location, &full.primary)
            } else {
                Ok(())
            }
        },
    }
}

/// Checks every item: its tags are declared and, where `globs`, its primary compiles.
pub fn check_items<Opts>(
    location: &str,
    valid_tags: &Vec<String>,
    items: &Items<Opts>,
    globs: bool,
) -> (r: Result<(), PackOptsError>)
    ensures
        r is Ok <==> items_ok(valid_tags@, *items, globs),
        r matches Err(e) ==> reports_defect(e, valid_tags@) && error_location(e) == location@,
        r matches Err(e) ==> occurs_in_items(e, *items, globs),
{
    match items {
        Items::Single(item) => {
            let r = check_item(location, valid_tags, item, globs);
            assert(items_seq(*items) =~= seq![*item]);
            assert(items_seq(*items)[0] == *item);
            r
        },
        Items::Multiple(list) => {
            let mut i: usize = 0;
            while i < list.len()
                invariant
                    i <= list@.len(),
                    items_seq(*items) == list@,
                    forall|m: int| 0 <= m < i ==> item_ok(valid_tags@, #[trigger] list@[m], globs),
                decreases list@.len() - i,
            {
                match check_item(location, valid_tags, &list[i], globs) {
                    Ok(()) => {},
                    Err(e) => {
                        return Err(e);
                    },
                }
                i = i + 1;
            }
            Ok(())
        },
    }
}

/// Checks a whole target: its default tags, then its items.
pub fn check_target<Opts>(
    location: &str,
    valid_tags: &Vec<String>,
    target: &Target<Opts>,
    globs: bool,
) -> (r: Result<(), PackOptsError>)
    ensures
        r is Ok <==> target_ok(valid_tags@, *target, globs),
        r matches Err(e) ==> reports_defect(e, valid_tags@) && error_location(e) == location@,
        r matches Err(e) ==> occurs_in_target(e, *target, globs),
{
    match target {
        Either::Left(items) => check_items(location, valid_tags, items, globs),
        Either::Right(config) => {
            match check_tags(location, &config.default.tags, valid_tags) {
                Ok(()) => {},
                Err(e) => {
                    return Err(e);
                },
            }
            check_items(location, valid_tags, &config.items, globs)
        },
    }
}

fn check_opt_target<Opts>(
    location: &str,
    valid_tags: &Vec<String>,
    target: &Option<Target<Opts>>,
    globs: bool,
) -> (r: Result<(), PackOptsError>)
    ensures
        r is Ok <==> opt_target_ok(valid_tags@, *target, globs),
        r matches Err(e) ==> reports_defect(e, valid_tags@) && error_location(e) == location@,
        r matches Err(e) ==> occurs_in_opt_target(e, *target, globs),
{
    match target {
        Some(t) => check_target(location, valid_tags, t, globs),
        None => Ok(()),
    }
}

/// Checks every content block of a configuration.
pub fn check_media_opts(valid_tags: &Vec<String>, opts: &MediaOpts) -> (r: Result<(), PackOptsError>)
    ensures
        r is Ok <==> media_ok(valid_tags@, *opts),
        r matches Err(e) ==> reports_defect(e, valid_tags@),
        r matches Err(e) ==> occurs_in_media(e, *opts),
        r is Err && media_globs_ok(*opts) ==> r->Err_0 is TagError,
{
    match check_opt_target("popups", valid_tags, &opts.popups, true) {
        Ok(()) => {},
        Err(e) => {
            return Err(e);
        },
    }
    match check_opt_target("notifications", valid_tags, &opts.notifications, false) {
        Ok(()) => {},
        Err(e) => {
            return Err(e);
        },
    }
    match check_opt_target("links", valid_tags, &opts.links, false) {
        Ok(()) => {},
        Err(e) => {
            return Err(e);
        },
    }
    match check_opt_target("prompts", valid_tags, &opts.prompts, false) {
        Ok(()) => {},
        Err(e) => {
            return Err(e);
        },
    }
    check_opt_target("wallpaper", valid_tags, &opts.wallpaper, true)
}

fn check_globs(location: &str, globs: &OneOrMore<String>) -> (r: Result<(), PackOptsError>)
    ensures
        r is Ok <==> globs_ok(*globs),
        r matches Err(e) ==> e matches PackOptsError::GlobError { location: l, glob: g, .. } && l@
            == location@ && globs_of(*globs).contains(g) && !glob_compiles(g@),
{
    match globs {
        OneOrMore::One(g) => {
            let r = check_glob(location, g);
            assert(globs_of(*globs) =~= seq![*g]);
            assert(globs_of(*globs)[0] == *g);
            r
        },
        OneOrMore::More(list) => {
            let mut k: usize = 0;
            while k < list.len()
                invariant
                    k <= list@.len(),
                    globs_of(*globs) == list@,
                    forall|m: int| 0 <= m < k ==> glob_compiles(#[trigger] list@[m]@),
                decreases list@.len() - k,
            {
                match check_glob(location, &list[k]) {
                    Ok(()) => {},
                    Err(e) => {
                        return Err(e);
                    },
                }
                k = k + 1;
            }
            Ok(())
        },
    }
}

/// Checks a root configuration: the transition's tags, every content block, the tag
/// patterns and the ignore patterns. Gives the declared tag names where all is well.
pub fn check_opts(opts: &PackOpts) -> (r: Result<Vec<String>, PackOptsError>)
    ensures
        r is Ok <==> opts_ok(*opts),
        r matches Ok(v) ==> v@ == declared_names(*opts),
        r matches Err(e) ==> reports_defect(e, declared_names(*opts)),
        r matches Err(e) ==> occurs_in_opts(e, *opts),
        r is Err && all_globs_compile(*opts) ==> r->Err_0 is TagError,
{
    let mut valid: Vec<String> = Vec::new();
    let mut i: usize = 0;
    while i < opts.tags.len()
        invariant
            i <= opts.tags@.len(),
            valid@ == declared_names(*opts).subrange(0, i as int),
        decreases opts.tags@.len() - i,
    {
        valid.push(opts.tags[i].0.clone());
        i = i + 1;
        assert(valid@ =~= declared_names(*opts).subrange(0, i as int));
    }
    assert(valid@ =~= declared_names(*opts));
    match &opts.metadata.transition {
        Some(t) => {
            let mut i: usize = 0;
            while i < t.items.len()
                invariant
                    i <= t.items@.len(),
                    valid@ == declared_names(*opts),
                    opts.metadata.transition == Some(*t),
                    forall|m: int|
                        0 <= m < i ==> match (#[trigger] t.items@[m]).tags {
                            None => true,
                            Some(v) => tags_ok(valid@, v@),
                        },
                decreases t.items@.len() - i,
            {
                match &t.items[i].tags {
                    Some(v) => {
                        match check_tags("transition", v, &valid) {
                            Ok(()) => {},
                            Err(e) => {
                                assert(t.items@[i as int].tags == Some(*v));
                                assert(!transition_ok(valid@, opts.metadata));
                                return Err(e);
                            },
                        }
                    },
                    None => {},
                }
                i = i + 1;
            }
        },
        None => {},
    }
    match check_media_opts(&valid, &opts.media) {
        Ok(()) => {},
        Err(e) => {
            return Err(e);
        },
    }
    let mut i: usize = 0;
    while i < opts.tags.len()
        invariant
            i <= opts.tags@.len(),
            forall|m: int| 0 <= m < i ==> globs_ok((#[trigger] opts.tags@[m]).1),
        decreases opts.tags@.len() - i,
    {
        let entry = &opts.tags[i];
        let location = text("tags.").concat(entry.0.as_str());
        match check_globs(location.as_str(), &entry.1) {
            Ok(()) => {},
            Err(e) => {
                return Err(e);
            },
        }
        i = i + 1;
    }
    match &opts.ignore {
        Some(o) => {
            match check_globs("ignore", o) {
                Ok(()) => {},
                Err(e) => {
                    return Err(e);
                },
            }
        },
        None => {},
    }
    Ok(valid)
}

impl Config {
    /// A configuration from a root configuration and the nested ones, after checking the
    /// root one whole and every nested one's content blocks against the root's tags.
    pub fn checked(root_config: PackOpts, nested_config: Vec<(String, MediaOpts)>) -> (r: Result<
        Config,
        InvalidConfig,
    >)
        ensures
            r is Ok <==> opts_ok(root_config) && forall|i: int|
                0 <= i < nested_config@.len() ==> media_ok(
                    declared_names(root_config),
                    (#[trigger] nested_config@[i]).1,
                ),
            r matches Ok(c) ==> c.root_config == root_config && c.nested_config == nested_config,
            r matches Err(e) ==> (e.source is None <==> !opts_ok(root_config)) && reports_defect(
                e.error,
                declared_names(root_config),
            ),
            r is Err && r->Err_0.source is None ==> occurs_in_opts(r->Err_0.error, root_config) && (
            all_globs_compile(root_config) ==> r->Err_0.error is TagError),
            r is Err && r->Err_0.source is Some ==> ({
                let i = r->Err_0.source->0;
                &&& i < nested_config@.len()
                &&& occurs_in_media(r->Err_0.error, nested_config@[i as int].1)
                &&& media_globs_ok(nested_config@[i as int].1) ==> r->Err_0.error is TagError
                &&& !media_ok(declared_names(root_config), nested_config@[i as int].1)
                &&& forall|m: int|
                    0 <= m < i ==> media_ok(
                        declared_names(root_config),
                        (#[trigger] nested_config@[m]).1,
                    )
            }),
    {
        let valid = match check_opts(&root_config) {
            Ok(v) => v,
            Err(error) => {
                return Err(InvalidConfig { source: None, error });
            },
        };
        let mut i: usize = 0;
        while i < nested_config.len()
            invariant
                i <= nested_config@.len(),
                valid@ == declared_names(root_config),
                opts_ok(root_config),
                forall|m: int|
                    0 <= m < i ==> media_ok(valid@, (#[trigger] nested_config@[m]).1),
            decreases nested_config@.len() - i,
        {
            match check_media_opts(&valid, &nested_config[i].1) {
                Ok(()) => {},
                Err(error) => {
                    assert(!media_ok(declared_names(root_config), nested_config@[i as int].1));
                    assert(forall|m: int|
                        0 <= m < i ==> media_ok(
                            declared_names(root_config),
                            (#[trigger] nested_config@[m]).1,
                        ));
                    return Err(InvalidConfig { source: Some(i), error });
                },
            }
            i = i + 1;
        }
        Ok(Config::new(root_config, nested_config))
    }
}

} // verus!
