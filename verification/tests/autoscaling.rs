use scheduler::autoscaling::{
    find_owner, ids_of_members, is_tagged, names_of_tagged, tag_has, GroupDescription, GroupPage,
    GroupScan, MemberExpansion, Membership, Tag,
};

fn tag(key: &str, value: &str) -> Tag {
    Tag { key: Some(key.to_string()), value: Some(value.to_string()) }
}

fn group(name: &str, tags: Vec<Tag>, instances: &[&str]) -> GroupDescription {
    GroupDescription {
        name: Some(name.to_string()),
        tags,
        instance_ids: instances.iter().map(|i| Some(i.to_string())).collect(),
    }
}

fn member(instance: &str, group: &str) -> Membership {
    Membership { instance_id: instance.to_string(), group_name: group.to_string() }
}

#[test]
fn owner_is_the_group_of_a_member() {
    // G1 holds i1 and i2; i3 is managed on its own
    let memberships = vec![member("i1", "G1"), member("i2", "G1")];
    assert_eq!(find_owner(&memberships, &"i1".to_string()), Some("G1".to_string()));
    assert_eq!(find_owner(&memberships, &"i2".to_string()), Some("G1".to_string()));
    assert_eq!(find_owner(&memberships, &"i3".to_string()), None);
    assert_eq!(find_owner(&Vec::new(), &"i1".to_string()), None);
}

#[test]
fn owner_is_found_among_several_groups() {
    let memberships = vec![member("a", "G1"), member("b", "G2"), member("c", "G1")];
    assert_eq!(find_owner(&memberships, &"b".to_string()), Some("G2".to_string()));
    assert_eq!(find_owner(&memberships, &"c".to_string()), Some("G1".to_string()));
    assert_eq!(find_owner(&memberships, &"G1".to_string()), None);
}

#[test]
fn expanding_no_group_asks_for_nothing() {
    let expansion = MemberExpansion::new(Vec::new());
    assert!(expansion.request().is_none());
    assert!(expansion.is_finished());
    assert_eq!(expansion.into_members(), Vec::<String>::new());
}

#[test]
fn expanding_groups_pages_through_their_members() {
    let mut expansion = MemberExpansion::new(vec!["g1".to_string(), "g2".to_string()]);
    let first = expansion.request().unwrap();
    assert_eq!(first.group_names, vec!["g1", "g2"]);
    assert_eq!(first.next_token, None);
    expansion.take_page(&GroupPage {
        groups: vec![group("g1", vec![], &["i-1", "i-2"])],
        next_token: Some("more".to_string()),
    });
    let second = expansion.request().unwrap();
    assert_eq!(second.group_names, vec!["g1", "g2"]);
    assert_eq!(second.next_token, Some("more".to_string()));
    let mut g2 = group("g2", vec![], &["i-3"]);
    g2.instance_ids.push(None);
    expansion.take_page(&GroupPage { groups: vec![g2], next_token: Some(String::new()) });
    assert!(expansion.request().is_none());
    assert_eq!(expansion.into_members(), vec!["i-1", "i-2", "i-3"]);
}

#[test]
fn members_are_taken_group_by_group() {
    let groups = vec![
        group("g1", vec![], &["a", "b"]),
        group("g2", vec![], &[]),
        group("g3", vec![], &["c"]),
    ];
    assert_eq!(ids_of_members(&groups), vec!["a", "b", "c"]);
    assert_eq!(ids_of_members(&Vec::new()), Vec::<String>::new());
}

#[test]
fn tags_match_exactly() {
    let key = "schedule".to_string();
    let value = "office".to_string();
    assert!(tag_has(&tag("schedule", "office"), &key, &value));
    assert!(!tag_has(&tag("Schedule", "office"), &key, &value));
    assert!(!tag_has(&tag("schedule", "office-hours"), &key, &value));
    assert!(!tag_has(&tag("schedule", ""), &key, &value));
    assert!(!tag_has(&Tag { key: None, value: Some("office".to_string()) }, &key, &value));
    // an absent key or value counts as the empty text
    assert!(tag_has(&Tag { key: None, value: None }, &String::new(), &String::new()));
    assert!(tag_has(&Tag { key: Some("k".to_string()), value: None }, &"k".to_string(), &String::new()));
}

#[test]
fn tagged_groups_are_kept_by_name() {
    let key = "schedule".to_string();
    let value = "office".to_string();
    let mut nameless = group("x", vec![tag("schedule", "office")], &[]);
    nameless.name = None;
    let groups = vec![
        group("web", vec![tag("team", "a"), tag("schedule", "office")], &["i-1"]),
        group("batch", vec![tag("schedule", "night")], &["i-2"]),
        nameless,
        group("api", vec![tag("schedule", "office"), tag("schedule", "office")], &[]),
        group("bare", vec![], &[]),
    ];
    assert!(is_tagged(&groups[0], &key, &value));
    assert!(!is_tagged(&groups[1], &key, &value));
    assert!(!is_tagged(&groups[4], &key, &value));
    assert_eq!(names_of_tagged(&groups, &key, &value), vec!["web", "api"]);
}

#[test]
fn group_scan_reads_all_groups_page_by_page() {
    let mut scan = GroupScan::new("schedule", "office");
    let first = scan.request().unwrap();
    assert!(first.group_names.is_empty());
    assert_eq!(first.next_token, None);
    scan.take_page(&GroupPage {
        groups: vec![
            group("web", vec![tag("schedule", "office")], &[]),
            group("other", vec![tag("schedule", "never")], &[]),
        ],
        next_token: Some("p2".to_string()),
    });
    assert!(!scan.is_finished());
    assert_eq!(scan.request().unwrap().next_token, Some("p2".to_string()));
    scan.take_page(&GroupPage {
        groups: vec![group("api", vec![tag("schedule", "office")], &[])],
        next_token: None,
    });
    assert!(scan.is_finished());
    assert!(scan.request().is_none());
    assert_eq!(scan.into_names(), vec!["web", "api"]);
}

#[test]
fn a_failed_request_gives_the_search_up() {
    let mut scan = GroupScan::new("schedule", "office");
    scan.take_page(&GroupPage {
        groups: vec![group("web", vec![tag("schedule", "office")], &[])],
        next_token: Some("p2".to_string()),
    });
    scan.fail("throttled".to_string());
    assert!(scan.is_finished());
    assert!(scan.request().is_none());
    assert_eq!(scan.into_result().unwrap_err().cause, "throttled");

    let mut expansion = MemberExpansion::new(vec!["web".to_string()]);
    expansion.fail("throttled".to_string());
    assert!(expansion.request().is_none());
    assert_eq!(expansion.into_result().unwrap_err().cause, "throttled");

    // without a group nothing was asked, so nothing can have failed
    let mut idle = MemberExpansion::new(Vec::new());
    idle.fail("late".to_string());
    assert_eq!(idle.into_result().unwrap(), Vec::<String>::new());
}

#[test]
fn groups_and_members_are_kept_once() {
    let mut scan = GroupScan::new("schedule", "office");
    scan.take_page(&GroupPage {
        groups: vec![
            group("web", vec![tag("schedule", "office")], &[]),
            group("web", vec![tag("schedule", "office")], &[]),
        ],
        next_token: Some("p2".to_string()),
    });
    scan.take_page(&GroupPage {
        groups: vec![group("api", vec![tag("schedule", "office")], &[]), group("web", vec![tag("schedule", "office")], &[])],
        next_token: None,
    });
    assert_eq!(scan.into_result().unwrap(), vec!["web", "api"]);

    let mut expansion = MemberExpansion::new(vec!["web".to_string()]);
    expansion.take_page(&GroupPage {
        groups: vec![group("web", vec![], &["i-1", "i-2", "i-1"])],
        next_token: Some("p2".to_string()),
    });
    expansion.take_page(&GroupPage { groups: vec![group("web", vec![], &["i-2", "i-3"])], next_token: None });
    assert_eq!(expansion.into_members(), vec!["i-1", "i-2", "i-3"]);
}
