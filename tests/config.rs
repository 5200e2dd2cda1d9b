use mediapack::config::{Config, MediaOpts, OneOrMore, PackOpts};
use mediapack::target::{Defaults, Either, FullItem, Items, NotificationOpts, WithDefaults};
use mediapack::transition::{Metadata, Transition, TransitionApplyTo, TransitionItem, TransitionType, Order};
use mediapack::validate::PackOptsError;
use mediapack::{Empty, MediaCategory};

fn s(x: &str) -> String {
    x.to_string()
}

fn no_media() -> MediaOpts {
    MediaOpts { popups: None, notifications: None, links: None, prompts: None, wallpaper: None }
}

fn metadata() -> Metadata {
    Metadata { name: s("pack"), creator: None, description: None, version: None, transition: None }
}

fn opts(tags: Vec<(String, OneOrMore<String>)>, default_tag: Option<String>, media: MediaOpts) -> PackOpts {
    PackOpts { metadata: metadata(), media, tags, default_tag, ignore: None }
}

fn bare(items: &[&str]) -> Option<Either<Items<Empty>, WithDefaults<Empty>>> {
    Some(Either::Left(Items::Multiple(items.iter().map(|x| Either::Left(s(x))).collect())))
}

#[test]
fn glob_tag_is_given_to_matching_path() {
    let cfg = Config::new(
        opts(
            vec![
                (s("nsfw"), OneOrMore::One(s("videos/**"))),
                (s("cute"), OneOrMore::More(vec![s("cats/*"), s("dogs/*")])),
            ],
            None,
            no_media(),
        ),
        vec![],
    );
    assert_eq!(cfg.resolve_tags("videos/a/b.mp4"), vec![s("nsfw")]);
    assert_eq!(cfg.resolve_tags("dogs/rex.png"), vec![s("cute")]);
    assert_eq!(cfg.resolve_tags("misc/x.png"), Vec::<String>::new());
}

#[test]
fn default_tag_comes_first() {
    let cfg = Config::new(
        opts(vec![(s("nsfw"), OneOrMore::One(s("videos/**")))], Some(s("base")), no_media()),
        vec![],
    );
    assert_eq!(cfg.resolve_tags("videos/x.mp4"), vec![s("base"), s("nsfw")]);
    assert_eq!(cfg.resolve_tags("other.png"), vec![s("base")]);
}

#[test]
fn merge_precedence_item_over_default() {
    let item_b = Either::Right(FullItem {
        primary: s("body one"),
        opts: NotificationOpts { summary: Some(s("B")) },
        tags: vec![s("t2")],
    });
    let item_none = Either::Right(FullItem {
        primary: s("body two"),
        opts: NotificationOpts { summary: None },
        tags: vec![],
    });
    let target = Either::Right(WithDefaults {
        default: Defaults { tags: vec![s("t1")], opts: NotificationOpts { summary: Some(s("A")) } },
        items: Items::Multiple(vec![item_b, item_none, Either::Left(s("bare"))]),
    });
    let mut media = no_media();
    media.notifications = Some(target);
    let cfg = Config::new(opts(vec![], Some(s("d")), media), vec![]);
    let r = cfg.resolve();
    assert_eq!(r.notifications.len(), 3);
    assert_eq!(r.notifications[0].primary, s("body one"));
    assert_eq!(r.notifications[0].opts.summary, Some(s("B")));
    assert_eq!(r.notifications[0].tags, vec![s("t1"), s("t2"), s("d")]);
    assert_eq!(r.notifications[1].opts.summary, Some(s("A")));
    assert_eq!(r.notifications[1].tags, vec![s("t1"), s("d")]);
    assert_eq!(r.notifications[2].primary, s("bare"));
    assert_eq!(r.notifications[2].opts.summary, Some(s("A")));
    assert!(r.popups.is_empty());
}

#[test]
fn single_and_list_shapes() {
    let mut media = no_media();
    media.links = Some(Either::Left(Items::Single(Either::Left(s("https://example.org")))));
    media.prompts = bare(&["one", "two"]);
    let cfg = Config::new(opts(vec![], None, media), vec![]);
    let r = cfg.resolve();
    assert_eq!(r.links.len(), 1);
    assert_eq!(r.links[0].primary, s("https://example.org"));
    assert!(r.links[0].tags.is_empty());
    assert_eq!(r.prompts.iter().map(|p| p.primary.clone()).collect::<Vec<_>>(), vec![s("one"), s("two")]);
}

#[test]
fn nested_config_gets_directory_tags() {
    let mut root_media = no_media();
    root_media.prompts = bare(&["root prompt"]);
    let mut nested = no_media();
    nested.prompts = bare(&["nested prompt"]);
    let cfg = Config::new(
        opts(vec![(s("deep"), OneOrMore::One(s("sub*")))], Some(s("base")), root_media),
        vec![(s("sub"), nested)],
    );
    let r = cfg.resolve();
    assert_eq!(r.prompts.len(), 2);
    assert_eq!(r.prompts[0].tags, vec![s("base")]);
    assert_eq!(r.prompts[1].primary, s("nested prompt"));
    assert_eq!(r.prompts[1].tags, vec![s("base"), s("deep")]);
}

#[test]
fn tags_and_category_of_assets() {
    let mut media = no_media();
    media.popups = Some(Either::Left(Items::Single(Either::Right(FullItem {
        primary: s("pics/*"),
        opts: Empty {},
        tags: vec![s("pic")],
    }))));
    media.wallpaper = Some(Either::Left(Items::Single(Either::Right(FullItem {
        primary: s("walls/*"),
        opts: Empty {},
        tags: vec![s("wall")],
    }))));
    let cfg = Config::new(
        opts(vec![(s("pic"), OneOrMore::More(vec![])), (s("wall"), OneOrMore::More(vec![]))], None, media),
        vec![],
    );
    let r = cfg.resolve();
    let (tags, cat) = cfg.get_tags_and_category("walls/w.png", &r);
    assert_eq!(tags, vec![s("wall")]);
    assert_eq!(cat, MediaCategory::Wallpaper);
    let (tags, cat) = cfg.get_tags_and_category("pics/p.png", &r);
    assert_eq!(tags, vec![s("pic")]);
    assert_eq!(cat, MediaCategory::Popup);
    let (tags, cat) = cfg.get_tags_and_category("elsewhere/p.png", &r);
    assert!(tags.is_empty());
    assert_eq!(cat, MediaCategory::Popup);
}

#[test]
fn combine_uses_given_matches() {
    let mut media = no_media();
    media.popups = bare(&["a", "b"]);
    media.wallpaper = bare(&["w"]);
    let cfg = Config::new(opts(vec![], None, media), vec![]);
    let mut r = cfg.resolve();
    r.popups[1].tags = vec![s("x")];
    let (tags, cat) = mediapack::config::combine_tags_and_category(
        vec![s("p")],
        &r,
        &vec![false, true],
        &vec![true],
    );
    assert_eq!(tags, vec![s("p"), s("x")]);
    assert_eq!(cat, MediaCategory::Wallpaper);
    let picked = mediapack::config::collect_tags(
        &vec![(s("a"), OneOrMore::More(vec![])), (s("b"), OneOrMore::More(vec![]))],
        &Some(s("d")),
        &vec![false, true],
    );
    assert_eq!(picked, vec![s("d"), s("b")]);
}

#[test]
fn ignore_patterns() {
    let mut o = opts(vec![], None, no_media());
    o.ignore = Some(OneOrMore::More(vec![s("*.txt"), s("tmp/**")]));
    let cfg = Config::new(o, vec![]);
    assert!(cfg.is_ignored("notes.txt"));
    assert!(cfg.is_ignored("tmp/a/b.png"));
    assert!(!cfg.is_ignored("pics/a.png"));
}

#[test]
fn unknown_tag_is_reported() {
    let mut media = no_media();
    media.links = Some(Either::Left(Items::Single(Either::Right(FullItem {
        primary: s("https://example.org"),
        opts: Empty {},
        tags: vec![s("missing")],
    }))));
    let err = Config::checked(opts(vec![(s("known"), OneOrMore::More(vec![]))], None, media), vec![])
        .err()
        .unwrap();
    assert_eq!(err.source, None);
    match err.error {
        PackOptsError::TagError { location, tag, valid_tags } => {
            assert_eq!(location, s("links"));
            assert_eq!(tag, s("missing"));
            assert_eq!(valid_tags, vec![s("known")]);
        }
        _ => panic!("expected a tag error"),
    }
}

#[test]
fn invalid_glob_is_reported() {
    let err = Config::checked(opts(vec![(s("bad"), OneOrMore::One(s("a/[b")))], None, no_media()), vec![])
        .err()
        .unwrap();
    match err.error {
        PackOptsError::GlobError { location, glob, .. } => {
            assert_eq!(location, s("tags.bad"));
            assert_eq!(glob, s("a/[b"));
        }
        _ => panic!("expected a glob error"),
    }
}

#[test]
fn nested_and_transition_checks() {
    let mut nested = no_media();
    nested.popups = Some(Either::Left(Items::Single(Either::Left(s("[")))));
    let err = Config::checked(opts(vec![], None, no_media()), vec![(s("sub"), nested)]).err().unwrap();
    assert_eq!(err.source, Some(0));
    let mut o = opts(vec![(s("a"), OneOrMore::More(vec![]))], None, no_media());
    o.metadata.transition = Some(Transition {
        transition: TransitionType::Abrupt,
        apply_to: TransitionApplyTo::All,
        order: Order::Sequential,
        loop_items: true,
        items: vec![TransitionItem { tags: Some(vec![s("a")]) }, TransitionItem { tags: Some(vec![s("zzz")]) }],
    });
    assert!(Config::checked(o, vec![]).is_err());
    let ok = Config::checked(opts(vec![(s("a"), OneOrMore::One(s("x/**")))], None, no_media()), vec![]);
    assert!(ok.is_ok());
}

#[test]
fn tag_error_names_offender_and_valid_tags() {
    let r = mediapack::validate::check_tag("popups", &s("x"), &vec![s("a"), s("b")]);
    match r {
        Err(PackOptsError::TagError { location, tag, valid_tags }) => {
            assert_eq!(location, s("popups"));
            assert_eq!(tag, s("x"));
            assert_eq!(valid_tags, vec![s("a"), s("b")]);
        }
        _ => panic!("expected a tag error"),
    }
    assert!(mediapack::validate::check_tag("popups", &s("b"), &vec![s("a"), s("b")]).is_ok());
}

#[test]
fn first_bad_nested_config_is_reported() {
    let good = no_media();
    let mut bad = no_media();
    bad.prompts = Some(Either::Left(Items::Single(Either::Right(FullItem {
        primary: s("p"),
        opts: Empty {},
        tags: vec![s("undeclared")],
    }))));
    let err = Config::checked(opts(vec![(s("a"), OneOrMore::More(vec![]))], None, no_media()), vec![(s("one"), good), (s("two"), bad)])
        .err()
        .unwrap();
    assert_eq!(err.source, Some(1));
    match err.error {
        PackOptsError::TagError { location, tag, valid_tags } => {
            assert_eq!(location, s("prompts"));
            assert_eq!(tag, s("undeclared"));
            assert_eq!(valid_tags, vec![s("a")]);
        }
        _ => panic!("expected a tag error"),
    }
}

#[test]
fn glob_error_only_where_a_pattern_fails() {
    let mut media = no_media();
    media.wallpaper = Some(Either::Left(Items::Single(Either::Right(FullItem {
        primary: s("walls/[x"),
        opts: Empty {},
        tags: vec![],
    }))));
    let err = Config::checked(opts(vec![], None, media), vec![]).err().unwrap();
    match err.error {
        PackOptsError::GlobError { location, glob, .. } => {
            assert_eq!(location, s("wallpaper"));
            assert_eq!(glob, s("walls/[x"));
        }
        _ => panic!("expected a glob error"),
    }
}
