//! The recurring configuration shape
//!
//! ```text
//! | Item
//! | [ Item ]
//! | { default: { ..Opts, tags }, items: Item | [ Item ] }
//! ```
//!
//! where `Item` is either a bare primary value or `{ primary, ..Opts, tags }`, and its
//! resolution into a flat list of items with merged options and tags.

use vstd::prelude::*;

verus! {

/// One of two shapes.
pub enum Either<T, V> {
    Left(T),
    Right(V),
}

/// An item written out in full: its primary value, its options and its tags.
pub struct FullItem<Opts> {
    pub primary: String,
    pub opts: Opts,
    pub tags: Vec<String>,
}

/// A bare primary value, or an item written out in full.
pub type Item<Opts> = Either<String, FullItem<Opts>>;

/// One item, or a list of them.
pub enum Items<Opts> {
    Single(Item<Opts>),
    Multiple(Vec<Item<Opts>>),
}

/// Options and tags that apply to every item of a target.
pub struct Defaults<Opts> {
    pub tags: Vec<String>,
    pub opts: Opts,
}

/// Items together with the defaults that apply to them.
pub struct WithDefaults<Opts> {
    pub default: Defaults<Opts>,
    pub items: Items<Opts>,
}

/// A whole configuration entry of one content kind.
pub type Target<Opts> = Either<Items<Opts>, WithDefaults<Opts>>;

/// A kind of content without options.
#[derive(Debug, Clone, Copy, PartialEq, Eq, Structural)]
pub struct Empty {}

/// Options of a notification.
#[derive(Debug, PartialEq, Eq)]
pub struct NotificationOpts {
    pub summary: Option<String>,
}

/// Options that can be merged field by field: the item's value where it has one, the
/// default's value otherwise.
pub trait MergeOpts: Sized {
    /// The options of an item merged over the defaults.
    spec fn merge_spec(item: Self, default: Self) -> Self;

    /// The options of an item that sets none.
    spec fn unset_spec() -> Self;

    fn merge_over(item: Self, default: &Self) -> (r: Self)
        ensures
            r == Self::merge_spec(item, *default),
    ;

    fn unset() -> (r: Self)
        ensures
            r == Self::unset_spec(),
    ;

    fn duplicate(&self) -> (r: Self)
        ensures
            r == *self,
    ;
}

impl MergeOpts for Empty {
    open spec fn merge_spec(item: Self, default: Self) -> Self {
        Empty {  }
    }

    open spec fn unset_spec() -> Self {
        Empty {  }
    }

    fn merge_over(item: Self, default: &Self) -> (r: Self) {
        Empty {  }
    }

    fn unset() -> (r: Self) {
        Empty {  }
    }

    fn duplicate(&self) -> (r: Self) {
        Empty {  }
    }
}

/// Relies on merge's `overwrite_none` strategy: `left` keeps its value where it has one
/// and takes `right` otherwise.
pub assume_specification<T>[ merge::option::overwrite_none::<T> ](
    left: &mut Option<T>,
    right: Option<T>,
)
    ensures
        *final(left) == (if (*old(left)) is None {
            right
        } else {
            *old(left)
        }),
;

/// A copy of an optional string.
pub fn copy_opt_string(s: &Option<String>) -> (r: Option<String>)
    ensures
        r == *s,
{
    match s {
        Some(x) => Some(x.clone()),
        None => None,
    }
}

/// A copy of a list of strings.
pub fn copy_strings(v: &Vec<String>) -> (r: Vec<String>)
    ensures
        r@ == v@,
{
    let mut out: Vec<String> = Vec::new();
    let mut i: usize = 0;
    while i < v.len()
        invariant
            i <= v@.len(),
            out@ == v@.subrange(0, i as int),
        decreases v@.len() - i,
    {
        out.push(v[i].clone());
        i = i + 1;
        assert(out@ =~= v@.subrange(0, i as int));
    }
    assert(v@.subrange(0, v@.len() as int) =~= v@);
    out
}

impl MergeOpts for NotificationOpts {
    open spec fn merge_spec(item: Self, default: Self) -> Self {
        NotificationOpts {
            summary: if item.summary is None {
                default.summary
            } else {
                item.summary
            },
        }
    }

    open spec fn unset_spec() -> Self {
        NotificationOpts { summary: None }
    }

    fn merge_over(item: Self, default: &Self) -> (r: Self) {
        let mut summary = item.summary;
        merge::option::overwrite_none(&mut summary, copy_opt_string(&default.summary));
        NotificationOpts { summary }
    }

    fn unset() -> (r: Self) {
        NotificationOpts { summary: None }
    }

    fn duplicate(&self) -> (r: Self) {
        NotificationOpts { summary: copy_opt_string(&self.summary) }
    }
}

/// A fully resolved item: its primary value, merged options and every tag it carries.
pub struct ResolvedTarget<Opts> {
    pub primary: String,
    pub opts: Opts,
    pub tags: Vec<String>,
}

/// What a resolved item holds, as plain values.
pub type ResolvedModel<Opts> = (String, Opts, Seq<String>);

impl<Opts> ResolvedTarget<Opts> {
    pub open spec fn model(&self) -> ResolvedModel<Opts> {
        (self.primary, self.opts, self.tags@)
    }
}

/// The models of a list of resolved items.
pub open spec fn models<Opts>(v: Seq<ResolvedTarget<Opts>>) -> Seq<ResolvedModel<Opts>> {
    v.map_values(|t: ResolvedTarget<Opts>| t.model())
}

pub proof fn lemma_models_push<Opts>(s: Seq<ResolvedTarget<Opts>>, x: ResolvedTarget<Opts>)
    ensures
        models(s.push(x)) == models(s).push(x.model()),
{
    assert(models(s.push(x)) =~= models(s).push(x.model()));
}

/// An item on its own: a bare value has unset options and no tags.
pub open spec fn item_model<Opts: MergeOpts>(item: Item<Opts>) -> ResolvedModel<Opts> {
    match item {
        Either::Left(p) => (p, Opts::unset_spec(), Seq::empty()),
        Either::Right(f) => (f.primary, f.opts, f.tags@),
    }
}

pub open spec fn items_seq<Opts>(items: Items<Opts>) -> Seq<Item<Opts>> {
    match items {
        Items::Single(i) => seq![i],
        Items::Multiple(v) => v@,
    }
}

/// An item under defaults: its options merged over the default options, and the
/// default tags followed by its own.
pub open spec fn apply_defaults<Opts: MergeOpts>(
    m: ResolvedModel<Opts>,
    d: Defaults<Opts>,
) -> ResolvedModel<Opts> {
    (m.0, Opts::merge_spec(m.1, d.opts), d.tags@ + m.2)
}

/// The flat list of items that a target describes.
pub open spec fn target_model<Opts: MergeOpts>(t: Target<Opts>) -> Seq<ResolvedModel<Opts>> {
    match t {
        Either::Left(items) => items_seq(items).map_values(|i: Item<Opts>| item_model(i)),
        Either::Right(wd) => items_seq(wd.items).map_values(
            |i: Item<Opts>| apply_defaults(item_model(i), wd.default),
        ),
    }
}

/// Resolves one item on its own.
pub fn get_target_from_item<Opts: MergeOpts>(item: &Item<Opts>) -> (r: ResolvedTarget<Opts>)
    ensures
        r.model() == item_model(*item),
{
    match item {
        Either::Left(primary) => ResolvedTarget {
            primary: primary.clone(),
            opts: Opts::unset(),
            tags: Vec::new(),
        },
        Either::Right(full) => ResolvedTarget {
            primary: full.primary.clone(),
            opts: full.opts.duplicate(),
            tags: copy_strings(&full.tags),
        },
    }
}

/// Resolves each item of a list.
pub fn get_targets_from_items<Opts: MergeOpts>(items: &Items<Opts>) -> (r: Vec<
    ResolvedTarget<Opts>,
>)
    ensures
        models(r@) == items_seq(*items).map_values(|i: Item<Opts>| item_model(i)),
{
    let mut out: Vec<ResolvedTarget<Opts>> = Vec::new();
    match items {
        Items::Single(item) => {
            out.push(get_target_from_item(item));
            assert(models(out@) =~= items_seq(*items).map_values(|i: Item<Opts>| item_model(i)));
        },
        Items::Multiple(list) => {
            let mut i: usize = 0;
            while i < list.len()
                invariant
                    i <= list@.len(),
                    models(out@) == list@.subrange(0, i as int).map_values(
                        |i: Item<Opts>| item_model(i),
                    ),
                decreases list@.len() - i,
            {
                let ghost prev = out@;
                let t = get_target_from_item(&list[i]);
                out.push(t);
                proof {
                    lemma_models_push(prev, t);
                    assert(list@.subrange(0, i + 1).map_values(|i: Item<Opts>| item_model(i))
                        =~= list@.subrange(0, i as int).map_values(|i: Item<Opts>| item_model(i)).push(
                        item_model(list@[i as int]),
                    ));
                }
                i = i + 1;
            }
            assert(list@.subrange(0, list@.len() as int) =~= list@);
        },
    }
    out
}

/// Resolves a whole target: under defaults, each item's options are merged over the
/// default options and the default tags come before the item's own.
pub fn get_targets_from_target<Opts: MergeOpts>(target: &Target<Opts>) -> (r: Vec<
    ResolvedTarget<Opts>,
>)
    ensures
        models(r@) == target_model(*target),
{
    match target {
        Either::Left(items) => get_targets_from_items(items),
        Either::Right(config) => {
            let plain = get_targets_from_items(&config.items);
            let ghost src = items_seq(config.items).map_values(|i: Item<Opts>| item_model(i));
            let mut out: Vec<ResolvedTarget<Opts>> = Vec::new();
            let mut i: usize = 0;
            let total = plain.len();
            let mut rest = plain;
            let ghost whole = rest@;
            while rest.len() > 0
                invariant
                    models(whole) == src,
                    total == whole.len(),
                    i + rest@.len() == total,
                    rest@ == whole.subrange(i as int, whole.len() as int),
                    models(out@) == src.subrange(0, i as int).map_values(
                        |m: ResolvedModel<Opts>| apply_defaults(m, config.default),
                    ),
                decreases rest@.len(),
            {
                let item = rest.remove(0);
                assert(item.model() == src[i as int]);
                let mut tags = copy_strings(&config.default.tags);
                let mut own = item.tags;
                tags.append(&mut own);
                let opts = Opts::merge_over(item.opts, &config.default.opts);
                let ghost prev = out@;
                let t = ResolvedTarget { primary: item.primary, opts, tags };
                out.push(t);
                proof {
                    lemma_models_push(prev, t);
                    assert(t.model() == apply_defaults(src[i as int], config.default));
                    assert(src.subrange(0, i + 1).map_values(
                        |m: ResolvedModel<Opts>| apply_defaults(m, config.default),
                    ) =~= src.subrange(0, i as int).map_values(
                        |m: ResolvedModel<Opts>| apply_defaults(m, config.default),
                    ).push(apply_defaults(src[i as int], config.default)));
                }
                i = i + 1;
                assert(rest@ =~= whole.subrange(i as int, whole.len() as int));
            }
            assert(src.subrange(0, i as int) =~= src);
            assert(models(out@) =~= target_model(*target));
            out
        },
    }
}

/// Under defaults, a notification's own summary wins where it has one, and the default
/// summary applies where it has none; the default tags come before its own.
pub proof fn lemma_merge_precedence(wd: WithDefaults<NotificationOpts>, i: int)
    requires
        0 <= i < items_seq(wd.items).len(),
    ensures
        ({
            let r = target_model(Either::Right(wd))[i];
            let own = item_model(items_seq(wd.items)[i]);
            &&& own.1.summary is Some ==> r.1.summary == own.1.summary
            &&& own.1.summary is None ==> r.1.summary == wd.default.opts.summary
            &&& r.0 == own.0
            &&& r.2 == wd.default.tags@ + own.2
        }),
{
}

} // verus!
