//! Verified state logic of a decentralised git hosting built from several
//! on-chain programs: a registry of users, per-user programs, repository
//! registries and per-repository programs with branches and commits.
pub mod keys;
pub mod sorted_map;
pub mod repos;
pub mod repo;
pub mod user;
pub mod master;
pub mod master_smart;
