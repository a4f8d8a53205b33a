//! RouteScope: traffic observation for a Linux router.
pub mod access_laws;
pub mod account_laws;
pub mod addr;
pub mod api;
pub mod attribution_laws;
pub mod auth;
pub mod auth_laws;
pub mod backfill_laws;
pub mod call_laws;
pub mod capture_laws;
pub mod collector;
pub mod command_laws;
pub mod config;
pub mod conntrack;
pub mod conntrack_laws;
pub mod count_laws;
pub mod crypto;
pub mod cycle;
pub mod deletion_laws;
pub mod display_laws;
pub mod dns;
pub mod dns_laws;
pub mod dns_message;
pub mod dns_proxy;
pub mod domain;
pub mod format;
pub mod growth_laws;
pub mod ledger;
pub mod ledger_laws;
pub mod login;
pub mod naming_laws;
pub mod notation_laws;
pub mod num;
pub mod observing_laws;
pub mod page_laws;
pub mod pages;
pub mod paging;
pub mod paging_laws;
pub mod query_laws;
pub mod replay_laws;
pub mod repository;
pub mod request_laws;
pub mod row_laws;
pub mod schema;
pub mod service;
pub mod session;
pub mod simulator;
pub mod sql;
pub mod sqlite;
pub mod state;
pub mod storage;
pub mod storage_laws;
pub mod table;
pub mod tally_laws;
pub mod tc_ebpf;
pub mod text;
pub mod text_laws;
pub mod trace;
pub mod trace_laws;
pub mod web;
