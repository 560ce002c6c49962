use scheduler::apprunner::extract_service_name;
use scheduler::arn::{last_segment_of, split_segments};
use scheduler::cloudwatch::extract_alarm_name;
use scheduler::documentdb;
use scheduler::ec2::extract_instance_id;
use scheduler::ecs::{desired_count, extract_ecs_names};
use scheduler::rds::extract_rds_id;
use scheduler::redshift;
use scheduler::transfer::extract_server_id;

#[test]
fn ecs_names_are_the_last_two_segments() {
    let (cluster, service) =
        extract_ecs_names("arn:aws:ecs:us-east-1:123:service/my-cluster/my-service");
    assert_eq!(cluster, "my-cluster");
    assert_eq!(service, "my-service");
}

#[test]
fn ecs_names_fall_back_to_the_whole_text() {
    let (cluster, service) = extract_ecs_names("not-an-arn");
    assert_eq!(cluster, "");
    assert_eq!(service, "not-an-arn");
}

#[test]
fn ecs_names_need_three_segments() {
    let (cluster, service) = extract_ecs_names("service/only-two");
    assert_eq!(cluster, "");
    assert_eq!(service, "service/only-two");
    let (cluster, service) = extract_ecs_names("a/b/c/d");
    assert_eq!(cluster, "c");
    assert_eq!(service, "d");
}

#[test]
fn ecs_desired_count_is_zero_or_one() {
    assert_eq!(desired_count(false), 0);
    assert_eq!(desired_count(true), 1);
}

#[test]
fn instance_id_follows_the_last_slash() {
    assert_eq!(
        extract_instance_id("arn:aws:ec2:eu-west-1:123456789012:instance/i-0abc123"),
        "i-0abc123"
    );
    assert_eq!(extract_instance_id("not-an-arn"), "not-an-arn");
    assert_eq!(extract_instance_id("ends-with-slash/"), "");
}

#[test]
fn server_id_follows_the_last_slash() {
    assert_eq!(
        extract_server_id("arn:aws:transfer:eu-west-1:123456789012:server/s-01234567"),
        "s-01234567"
    );
    assert_eq!(extract_server_id("s-01234567"), "s-01234567");
}

#[test]
fn alarm_name_follows_the_last_colon() {
    assert_eq!(
        extract_alarm_name("arn:aws:cloudwatch:eu-west-1:123456789012:alarm:cpu-high"),
        "cpu-high"
    );
    assert_eq!(extract_alarm_name("cpu-high"), "cpu-high");
}

#[test]
fn cluster_ids_follow_the_last_colon() {
    assert_eq!(
        documentdb::extract_cluster_id("arn:aws:rds:eu-west-1:123456789012:cluster:docs"),
        "docs"
    );
    assert_eq!(
        redshift::extract_cluster_id("arn:aws:redshift:eu-west-1:123456789012:cluster:warehouse"),
        "warehouse"
    );
    assert_eq!(documentdb::extract_cluster_id("plain"), "plain");
    assert_eq!(redshift::extract_cluster_id("plain"), "plain");
}

#[test]
fn rds_id_follows_the_last_colon() {
    assert_eq!(extract_rds_id("arn:aws:rds:eu-west-1:123456789012:db:orders"), "orders");
    assert_eq!(extract_rds_id("arn:aws:rds:eu-west-1:123456789012:cluster:aurora"), "aurora");
    assert_eq!(extract_rds_id("orders"), "orders");
}

#[test]
fn service_name_is_the_segment_before_the_last() {
    assert_eq!(
        extract_service_name("arn:aws:apprunner:eu-west-1:123456789012:service/web/8fe1e10304f84fd2b0df550fe98a71fa"),
        "web"
    );
    assert_eq!(extract_service_name("not-an-arn"), "not-an-arn");
    assert_eq!(extract_service_name("a/b"), "a");
}

#[test]
fn split_keeps_empty_segments() {
    assert_eq!(split_segments("", '/'), vec![""]);
    assert_eq!(split_segments("a//b/", '/'), vec!["a", "", "b", ""]);
    assert_eq!(split_segments("/a", '/'), vec!["", "a"]);
    assert_eq!(split_segments("héllo:wörld", ':'), vec!["héllo", "wörld"]);
}

#[test]
fn last_segment_agrees_with_split() {
    for text in ["", "a", "a/b", "a/b/", "//", "arn:aws:x/y/z"] {
        let parts = split_segments(text, '/');
        assert_eq!(last_segment_of(text, '/'), parts[parts.len() - 1]);
    }
}
