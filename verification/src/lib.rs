//! Scheduled stop/start of tagged cloud resources: the decision logic.
//!
//! Every network call is left to the caller. Each component here is a small
//! state machine or a pure function: the caller performs the request that a
//! machine asks for and hands the response back.

pub mod apprunner;
pub mod arn;
pub mod autoscaling;
pub mod cloudwatch;
pub mod config;
pub mod documentdb;
pub mod ec2;
pub mod ecs;
pub mod executor;
pub mod facade;
pub mod family;
pub mod filter_resources_by_tags;
pub mod orchestrator;
pub mod paging;
pub mod rds;
pub mod redshift;
pub mod run_laws;
pub mod text;
pub mod transfer;
pub mod waiter;
