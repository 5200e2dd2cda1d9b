use vstd::prelude::*;
use crate::patterns::{glob_compiles, glob_match, glob_matches};
use crate::target::{
    copy_strings, get_targets_from_target, lemma_models_push, models, target_model, Empty,
    MergeOpts, NotificationOpts, ResolvedModel, ResolvedTarget, Target,
};
use crate::transition::Metadata;
use crate::types::MediaCategory;

verus! {

/// One value, or a list of them.
pub enum OneOrMore<T> {
    One(T),
    More(Vec<T>),
}

/// The per-kind content blocks of a configuration file.
pub struct MediaOpts {
    pub popups: Option<Target<Empty>>,
    pub notifications: Option<Target<NotificationOpts>>,
    pub links: Option<Target<Empty>>,
    pub prompts: Option<Target<Empty>>,
    pub wallpaper: Option<Target<Empty>>,
}

/// The root configuration of a pack.
pub struct PackOpts {
    pub metadata: Metadata,
    pub media: MediaOpts,
    /// Each declared tag with the glob pattern(s) whose paths receive it.
    pub tags: Vec<(String, OneOrMore<String>)>,
    /// A tag that every item receives.
    pub default_tag: Option<String>,
    /// Glob pattern(s) of input files to leave out.
    pub ignore: Option<OneOrMore<String>>,
}

/// Every item of each content kind, resolved.
pub struct Resolved {
    pub popups: Vec<ResolvedTarget<Empty>>,
    pub wallpapers: Vec<ResolvedTarget<Empty>>,
    pub notifications: Vec<ResolvedTarget<NotificationOpts>>,
    pub links: Vec<ResolvedTarget<Empty>>,
    pub prompts: Vec<ResolvedTarget<Empty>>,
}

/// A root configuration together with the nested configurations found in
/// subdirectories, each with the directory (relative to the root) it was found in.
pub struct Config {
    pub root_config: PackOpts,
    pub nested_config: Vec<(String, MediaOpts)>,
}

pub open spec fn globs_of(o: OneOrMore<String>) -> Seq<String> {
    match o {
        OneOrMore::One(x) => seq![x],
        OneOrMore::More(v) => v@,
    }
}

/// Some pattern of the list compiles and matches the path.
pub open spec fn any_hit(globs: Seq<String>, path: Seq<char>) -> bool {
    exists|k: int| 0 <= k < globs.len() && glob_compiles(globs[k]@) && glob_match(#[trigger] globs[k]@, path)
}

pub open spec fn opt_seq(o: Option<String>) -> Seq<String> {
    match o {
        Some(t) => seq![t],
        None => Seq::empty(),
    }
}

/// The names of the tags, in order, whose entry in `hits` is true (missing entries
/// count as false).
pub open spec fn picked_tags(tags: Seq<(String, OneOrMore<String>)>, hits: Seq<bool>) -> Seq<String>
    decreases tags.len(),
{
    if tags.len() == 0 {
        Seq::empty()
    } else {
        let prev = picked_tags(tags.drop_last(), hits);
        let i = tags.len() - 1;
        if i < hits.len() && hits[i] {
            prev.push(tags[i].0)
        } else {
            prev
        }
    }
}

/// Whether each tag's patterns hit the path.
pub open spec fn hits_for(tags: Seq<(String, OneOrMore<String>)>, path: Seq<char>) -> Seq<bool> {
    tags.map_values(|t: (String, OneOrMore<String>)| any_hit(globs_of(t.1), path))
}

/// The tags that a path receives: the default tag, if any, then each declared tag with a
/// pattern that matches the path.
pub open spec fn tags_for_path(opts: PackOpts, path: Seq<char>) -> Seq<String> {
    opt_seq(opts.default_tag) + picked_tags(opts.tags@, hits_for(opts.tags@, path))
}

/// Adds `extra` after the tags of each item.
pub open spec fn scoped<Opts>(ms: Seq<ResolvedModel<Opts>>, extra: Seq<String>) -> Seq<
    ResolvedModel<Opts>,
> {
    ms.map_values(|m: ResolvedModel<Opts>| (m.0, m.1, m.2 + extra))
}

pub open spec fn source_model<Opts: MergeOpts>(t: Option<Target<Opts>>, extra: Seq<String>) -> Seq<
    ResolvedModel<Opts>,
> {
    match t {
        Some(t) => scoped(target_model(t), extra),
        None => Seq::empty(),
    }
}

/// Selects one content kind's block of a configuration.
pub trait ContentKind {
    type Opts: MergeOpts;

    spec fn pick_spec(m: MediaOpts) -> Option<Target<Self::Opts>>;

    fn pick(m: &MediaOpts) -> (r: &Option<Target<Self::Opts>>)
        ensures
            *r == Self::pick_spec(*m),
    ;
}

pub struct PopupKind;

pub struct NotificationKind;

pub struct LinkKind;

pub struct PromptKind;

pub struct WallpaperKind;

impl ContentKind for PopupKind {
    type Opts = Empty;

    open spec fn pick_spec(m: MediaOpts) -> Option<Target<Empty>> {
        m.popups
    }

    fn pick(m: &MediaOpts) -> (r: &Option<Target<Empty>>) {
        &m.popups
    }
}

impl ContentKind for NotificationKind {
    type Opts = NotificationOpts;

    open spec fn pick_spec(m: MediaOpts) -> Option<Target<NotificationOpts>> {
        m.notifications
    }

    fn pick(m: &MediaOpts) -> (r: &Option<Target<NotificationOpts>>) {
        &m.notifications
    }
}

impl ContentKind for LinkKind {
    type Opts = Empty;

    open spec fn pick_spec(m: MediaOpts) -> Option<Target<Empty>> {
        m.links
    }

    fn pick(m: &MediaOpts) -> (r: &Option<Target<Empty>>) {
        &m.links
    }
}

impl ContentKind for PromptKind {
    type Opts = Empty;

    open spec fn pick_spec(m: MediaOpts) -> Option<Target<Empty>> {
        m.prompts
    }

    fn pick(m: &MediaOpts) -> (r: &Option<Target<Empty>>) {
        &m.prompts
    }
}

impl ContentKind for WallpaperKind {
    type Opts = Empty;

    open spec fn pick_spec(m: MediaOpts) -> Option<Target<Empty>> {
        m.wallpaper
    }

    fn pick(m: &MediaOpts) -> (r: &Option<Target<Empty>>) {
        &m.wallpaper
    }
}

/// The items of one kind that the first `n` nested configurations describe, each
/// followed by the tags of its configuration's directory.
pub open spec fn nested_model<K: ContentKind>(cfg: Config, n: int) -> Seq<ResolvedModel<K::Opts>>
    decreases n,
{
    if n <= 0 {
        Seq::empty()
    } else {
        let (dir, m) = cfg.nested_config@[n - 1];
        nested_model::<K>(cfg, n - 1) + source_model(
            K::pick_spec(m),
            tags_for_path(cfg.root_config, dir@),
        )
    }
}

/// Every item of one kind: the root configuration's items, each followed by the default
/// tag, then the nested configurations' items in order.
pub open spec fn kind_model<K: ContentKind>(cfg: Config) -> Seq<ResolvedModel<K::Opts>> {
    source_model(K::pick_spec(cfg.root_config.media), opt_seq(cfg.root_config.default_tag))
        + nested_model::<K>(cfg, cfg.nested_config@.len() as int)
}

/// The names of the tags whose entry in `hits` is true, after the default tag.
pub fn collect_tags(
    tags: &Vec<(String, OneOrMore<String>)>,
    default_tag: &Option<String>,
    hits: &Vec<bool>,
) -> (r: Vec<String>)
    ensures
        r@ == opt_seq(*default_tag) + picked_tags(tags@, hits@),
{
    let mut out: Vec<String> = Vec::new();
    match default_tag {
        Some(t) => out.push(t.clone()),
        None => {},
    }
    let ghost base = out@;
    assert(base == opt_seq(*default_tag));
    let mut i: usize = 0;
    while i < tags.len()
        invariant
            i <= tags@.len(),
            base == opt_seq(*default_tag),
            out@ == base + picked_tags(tags@.subrange(0, i as int), hits@),
        decreases tags@.len() - i,
    {
        let ghost sub = tags@.subrange(0, i + 1);
        assert(sub.drop_last() =~= tags@.subrange(0, i as int));
        if i < hits.len() && hits[i] {
            out.push(tags[i].0.clone());
            assert(out@ =~= base + picked_tags(sub, hits@));
        }
        i = i + 1;
    }
    assert(tags@.subrange(0, tags@.len() as int) =~= tags@);
    out
}

/// Whether some pattern of the list compiles and matches the path.
pub fn any_glob_matches(globs: &OneOrMore<String>, path: &str) -> (r: bool)
    ensures
        r == any_hit(globs_of(*globs), path@),
{
    match globs {
        OneOrMore::One(g) => {
            let r = glob_matches(g.as_str(), path);
            assert(r ==> globs_of(*globs)[0] == *g);
            r
        },
        OneOrMore::More(items) => {
            let mut i: usize = 0;
            while i < items.len()
                invariant
                    i <= items@.len(),
                    globs_of(*globs) == items@,
                    forall|k: int|
                        0 <= k < i ==> !(glob_compiles(items@[k]@) && glob_match(
                            #[trigger] items@[k]@,
                            path@,
                        )),
                decreases items@.len() - i,
            {
                if glob_matches(items[i].as_str(), path) {
                    return true;
                }
                i = i + 1;
            }
            false
        },
    }
}

impl Config {
    pub fn new(root_config: PackOpts, nested_config: Vec<(String, MediaOpts)>) -> (r: Config)
        ensures
            r.root_config == root_config,
            r.nested_config == nested_config,
    {
        Config { root_config, nested_config }
    }

    /// The tags that a path receives from the root configuration: the default tag, if
    /// any, then each declared tag that has a pattern matching the path.
    pub fn resolve_tags(&self, path: &str) -> (r: Vec<String>)
        ensures
            r@ == tags_for_path(self.root_config, path@),
    {
        let tags = &self.root_config.tags;
        let mut hits: Vec<bool> = Vec::new();
        let mut i: usize = 0;
        while i < tags.len()
            invariant
                i <= tags@.len(),
                hits@ == hits_for(tags@, path@).subrange(0, i as int),
            decreases tags@.len() - i,
        {
            let h = any_glob_matches(&tags[i].1, path);
            hits.push(h);
            i = i + 1;
            assert(hits@ =~= hits_for(tags@, path@).subrange(0, i as int));
        }
        assert(hits@ =~= hits_for(tags@, path@));
        collect_tags(tags, &self.root_config.default_tag, &hits)
    }

    /// Appends the items of one target, each followed by `extra` tags.
    fn extend_with<Opts: MergeOpts>(
        out: &mut Vec<ResolvedTarget<Opts>>,
        target: &Option<Target<Opts>>,
        extra: &Vec<String>,
    )
        ensures
            models(final(out)@) == models(old(out)@) + source_model(*target, extra@),
    {
        match target {
            Some(t) => {
                let items = get_targets_from_target(t);
                let ghost src = models(items@);
                let ghost base = models(out@);
                let total = items.len();
                let mut rest = items;
                let ghost whole = rest@;
                let mut i: usize = 0;
                while rest.len() > 0
                    invariant
                        src == models(whole),
                        total == whole.len(),
                        i + rest@.len() == total,
                        rest@ == whole.subrange(i as int, whole.len() as int),
                        models(out@) == base + scoped(src.subrange(0, i as int), extra@),
                    decreases rest@.len(),
                {
                    let item = rest.remove(0);
                    assert(item.model() == src[i as int]);
                    let mut tags = item.tags;
                    let mut more = copy_strings(extra);
                    tags.append(&mut more);
                    let ghost prev = out@;
                    let t = ResolvedTarget { primary: item.primary, opts: item.opts, tags };
                    out.push(t);
                    proof {
                        lemma_models_push(prev, t);
                        assert(scoped(src.subrange(0, i + 1), extra@) =~= scoped(
                            src.subrange(0, i as int),
                            extra@,
                        ).push(t.model()));
                    }
                    i = i + 1;
                    assert(rest@ =~= whole.subrange(i as int, whole.len() as int));
                    assert(models(out@) =~= base + scoped(src.subrange(0, i as int), extra@));
                }
                assert(src.subrange(0, i as int) =~= src);
            },
            None => {
                assert(models(out@) =~= models(out@) + source_model(*target, extra@));
            },
        }
    }

    /// Every item of one content kind, resolved.
    fn get_targets<K: ContentKind>(&self) -> (r: Vec<ResolvedTarget<K::Opts>>)
        ensures
            models(r@) == kind_model::<K>(*self),
    {
        let mut out: Vec<ResolvedTarget<K::Opts>> = Vec::new();
        let mut root_extra: Vec<String> = Vec::new();
        match &self.root_config.default_tag {
            Some(t) => root_extra.push(t.clone()),
            None => {},
        }
        assert(root_extra@ =~= opt_seq(self.root_config.default_tag));
        Self::extend_with(&mut out, K::pick(&self.root_config.media), &root_extra);
        assert(models(out@) =~= source_model(
            K::pick_spec(self.root_config.media),
            opt_seq(self.root_config.default_tag),
        ));
        let ghost base = models(out@);
        let mut i: usize = 0;
        while i < self.nested_config.len()
            invariant
                i <= self.nested_config@.len(),
                models(out@) == base + nested_model::<K>(*self, i as int),
            decreases self.nested_config@.len() - i,
        {
            let entry = &self.nested_config[i];
            let extra = self.resolve_tags(entry.0.as_str());
            Self::extend_with(&mut out, K::pick(&entry.1), &extra);
            i = i + 1;
            assert(models(out@) =~= base + nested_model::<K>(*self, i as int));
        }
        out
    }

    pub fn get_popups(&self) -> (r: Vec<ResolvedTarget<Empty>>)
        ensures
            models(r@) == kind_model::<PopupKind>(*self),
    {
        self.get_targets::<PopupKind>()
    }

    pub fn get_notifications(&self) -> (r: Vec<ResolvedTarget<NotificationOpts>>)
        ensures
            models(r@) == kind_model::<NotificationKind>(*self),
    {
        self.get_targets::<NotificationKind>()
    }

    pub fn get_links(&self) -> (r: Vec<ResolvedTarget<Empty>>)
        ensures
            models(r@) == kind_model::<LinkKind>(*self),
    {
        self.get_targets::<LinkKind>()
    }

    pub fn get_prompts(&self) -> (r: Vec<ResolvedTarget<Empty>>)
        ensures
            models(r@) == kind_model::<PromptKind>(*self),
    {
        self.get_targets::<PromptKind>()
    }

    pub fn get_wallpapers(&self) -> (r: Vec<ResolvedTarget<Empty>>)
        ensures
            models(r@) == kind_model::<WallpaperKind>(*self),
    {
        self.get_targets::<WallpaperKind>()
    }

    /// Resolves every item of every content kind that the configurations describe.
    pub fn resolve(&self) -> (r: Resolved)
        ensures
            models(r.popups@) == kind_model::<PopupKind>(*self),
            models(r.wallpapers@) == kind_model::<WallpaperKind>(*self),
            models(r.notifications@) == kind_model::<NotificationKind>(*self),
            models(r.links@) == kind_model::<LinkKind>(*self),
            models(r.prompts@) == kind_model::<PromptKind>(*self),
    {
        Resolved {
            popups: self.get_popups(),
            wallpapers: self.get_wallpapers(),
            notifications: self.get_notifications(),
            links: self.get_links(),
            prompts: self.get_prompts(),
        }
    }
}

/// The tags of the items, in order, whose entry in `hits` is true (missing entries
/// count as false), one after another.
pub open spec fn hit_tags<Opts>(rs: Seq<ResolvedTarget<Opts>>, hits: Seq<bool>) -> Seq<String>
    decreases rs.len(),
{
    if rs.len() == 0 {
        Seq::empty()
    } else {
        let i = rs.len() - 1;
        hit_tags(rs.drop_last(), hits) + if i < hits.len() && hits[i] {
            rs[i].tags@
        } else {
            Seq::empty()
        }
    }
}

/// Some item among the first `n` has a true entry in `hits`.
pub open spec fn some_hit(hits: Seq<bool>, n: int) -> bool {
    exists|i: int| 0 <= i < n && i < hits.len() && #[trigger] hits[i]
}

/// Whether each item's primary value, read as a glob pattern, hits the path.
pub open spec fn primary_hits<Opts>(rs: Seq<ResolvedTarget<Opts>>, path: Seq<char>) -> Seq<bool> {
    rs.map_values(
        |t: ResolvedTarget<Opts>| glob_compiles(t.primary@) && glob_match(t.primary@, path),
    )
}

/// Appends the tags of each item whose entry in `hits` is true.
fn append_hit_tags<Opts>(out: &mut Vec<String>, rs: &Vec<ResolvedTarget<Opts>>, hits: &Vec<bool>)
    ensures
        final(out)@ == old(out)@ + hit_tags(rs@, hits@),
{
    let ghost base = out@;
    let mut i: usize = 0;
    while i < rs.len()
        invariant
            i <= rs@.len(),
            out@ == base + hit_tags(rs@.subrange(0, i as int), hits@),
        decreases rs@.len() - i,
    {
        let ghost sub = rs@.subrange(0, i + 1);
        assert(sub.drop_last() =~= rs@.subrange(0, i as int));
        if i < hits.len() && hits[i] {
            let mut more = copy_strings(&rs[i].tags);
            out.append(&mut more);
        }
        i = i + 1;
        assert(out@ =~= base + hit_tags(rs@.subrange(0, i as int), hits@));
    }
    assert(rs@.subrange(0, rs@.len() as int) =~= rs@);
}

/// The tags and category of an asset, given the tags its path receives and which
/// popup and wallpaper items' patterns match it: the path's tags, then the tags of
/// each matching popup item, then those of each matching wallpaper item; it is a
/// wallpaper where some wallpaper item matches.
pub fn combine_tags_and_category(
    path_tags: Vec<String>,
    resolved: &Resolved,
    popup_hits: &Vec<bool>,
    wallpaper_hits: &Vec<bool>,
) -> (r: (Vec<String>, MediaCategory))
    ensures
        r.0@ == path_tags@ + hit_tags(resolved.popups@, popup_hits@) + hit_tags(
            resolved.wallpapers@,
            wallpaper_hits@,
        ),
        r.1 == (if some_hit(wallpaper_hits@, resolved.wallpapers@.len() as int) {
            MediaCategory::Wallpaper
        } else {
            MediaCategory::Popup
        }),
{
    let mut tags = path_tags;
    append_hit_tags(&mut tags, &resolved.popups, popup_hits);
    append_hit_tags(&mut tags, &resolved.wallpapers, wallpaper_hits);
    let mut category = MediaCategory::Popup;
    let mut i: usize = 0;
    while i < resolved.wallpapers.len()
        invariant
            i <= resolved.wallpapers@.len(),
            category == (if some_hit(wallpaper_hits@, i as int) {
                MediaCategory::Wallpaper
            } else {
                MediaCategory::Popup
            }),
        decreases resolved.wallpapers@.len() - i,
    {
        if i < wallpaper_hits.len() && wallpaper_hits[i] {
            category = MediaCategory::Wallpaper;
        }
        i = i + 1;
    }
    (tags, category)
}

/// Whether each item's primary value, read as a glob pattern, matches the path.
fn match_primaries<Opts>(rs: &Vec<ResolvedTarget<Opts>>, path: &str) -> (r: Vec<bool>)
    ensures
        r@ == primary_hits(rs@, path@),
{
    let mut hits: Vec<bool> = Vec::new();
    let mut i: usize = 0;
    while i < rs.len()
        invariant
            i <= rs@.len(),
            hits@ == primary_hits(rs@, path@).subrange(0, i as int),
        decreases rs@.len() - i,
    {
        hits.push(glob_matches(rs[i].primary.as_str(), path));
        i = i + 1;
        assert(hits@ =~= primary_hits(rs@, path@).subrange(0, i as int));
    }
    assert(hits@ =~= primary_hits(rs@, path@));
    hits
}

impl Config {
    /// The tags and category of an asset at `path` (relative to the root): the tags its
    /// path receives, then the tags of each popup and each wallpaper item whose pattern
    /// matches it; it is a wallpaper where a wallpaper item's pattern matches it.
    pub fn get_tags_and_category(&self, path: &str, resolved: &Resolved) -> (r: (
        Vec<String>,
        MediaCategory,
    ))
        ensures
            r.0@ == tags_for_path(self.root_config, path@) + hit_tags(
                resolved.popups@,
                primary_hits(resolved.popups@, path@),
            ) + hit_tags(resolved.wallpapers@, primary_hits(resolved.wallpapers@, path@)),
            r.1 == (if some_hit(
                primary_hits(resolved.wallpapers@, path@),
                resolved.wallpapers@.len() as int,
            ) {
                MediaCategory::Wallpaper
            } else {
                MediaCategory::Popup
            }),
    {
        let path_tags = self.resolve_tags(path);
        let popup_hits = match_primaries(&resolved.popups, path);
        let wallpaper_hits = match_primaries(&resolved.wallpapers, path);
        combine_tags_and_category(path_tags, resolved, &popup_hits, &wallpaper_hits)
    }
}

proof fn lemma_picked_tags(tags: Seq<(String, OneOrMore<String>)>, hits: Seq<bool>)
    ensures
        forall|i: int|
            0 <= i < tags.len() && i < hits.len() && hits[i] ==> #[trigger] picked_tags(
                tags,
                hits,
            ).contains(tags[i].0),
        (forall|i: int| 0 <= i < tags.len() && i < hits.len() ==> !#[trigger] hits[i]) ==> picked_tags(
            tags,
            hits,
        ) == Seq::<String>::empty(),
    decreases tags.len(),
{
    if tags.len() > 0 {
        let prev = tags.drop_last();
        lemma_picked_tags(prev, hits);
        let last = tags.len() - 1;
        assert forall|i: int|
            0 <= i < tags.len() && i < hits.len() && hits[i] implies #[trigger] picked_tags(
            tags,
            hits,
        ).contains(tags[i].0) by {
            if i < last {
                assert(prev[i] == tags[i]);
                let p = picked_tags(prev, hits);
                assert(p.contains(prev[i].0));
                let k = choose|k: int| 0 <= k < p.len() && p[k] == tags[i].0;
                if last < hits.len() && hits[last] {
                    assert(picked_tags(tags, hits) == p.push(tags[last].0));
                    assert(picked_tags(tags, hits)[k] == tags[i].0);
                } else {
                    assert(picked_tags(tags, hits) == p);
                }
            } else {
                let r = picked_tags(tags, hits);
                assert(r[r.len() - 1] == tags[i].0);
            }
        }
        if forall|i: int| 0 <= i < tags.len() && i < hits.len() ==> !#[trigger] hits[i] {
            assert forall|i: int| 0 <= i < prev.len() && i < hits.len() implies !#[trigger] hits[i] by {
                assert(0 <= i < tags.len());
            }
        }
    }
}

/// A path receives every declared tag that has a pattern compiling and matching it; a
/// path that no pattern matches, under a configuration without a default tag,
/// receives no tags.
pub proof fn lemma_glob_tags(opts: PackOpts, path: Seq<char>)
    ensures
        forall|i: int|
            0 <= i < opts.tags@.len() && any_hit(globs_of(opts.tags@[i].1), path) ==> #[trigger] tags_for_path(
                opts,
                path,
            ).contains(opts.tags@[i].0),
        opts.default_tag is None && (forall|i: int|
            0 <= i < opts.tags@.len() ==> !any_hit(#[trigger] globs_of(opts.tags@[i].1), path))
            ==> tags_for_path(opts, path) == Seq::<String>::empty(),
{
    let hits = hits_for(opts.tags@, path);
    assert(hits.len() == opts.tags@.len());
    lemma_picked_tags(opts.tags@, hits);
    let d = opt_seq(opts.default_tag);
    let p = picked_tags(opts.tags@, hits);
    assert forall|i: int|
        0 <= i < opts.tags@.len() && any_hit(globs_of(opts.tags@[i].1), path) implies #[trigger] tags_for_path(
        opts,
        path,
    ).contains(opts.tags@[i].0) by {
        assert(hits[i]);
        assert(p.contains(opts.tags@[i].0));
        let k = choose|k: int| 0 <= k < p.len() && p[k] == opts.tags@[i].0;
        assert(tags_for_path(opts, path)[d.len() + k] == opts.tags@[i].0);
    }
    if opts.default_tag is None && (forall|i: int|
        0 <= i < opts.tags@.len() ==> !any_hit(#[trigger] globs_of(opts.tags@[i].1), path)) {
        assert forall|i: int| 0 <= i < opts.tags@.len() && i < hits.len() implies !#[trigger] hits[i] by {
            assert(!any_hit(globs_of(opts.tags@[i].1), path));
        }
        assert(tags_for_path(opts, path) =~= Seq::<String>::empty());
    }
}

impl Config {
    /// Whether an input file at `path` (relative to the root) is left out: some ignore
    /// pattern compiles and matches it.
    pub fn is_ignored(&self, path: &str) -> (r: bool)
        ensures
            r == match self.root_config.ignore {
                Some(o) => any_hit(globs_of(o), path@),
                None => false,
            },
    {
        match &self.root_config.ignore {
            Some(o) => any_glob_matches(o, path),
            None => false,
        }
    }
}

} // verus!
