pub mod date;
pub mod dto;
pub mod entity;
pub mod factory;
pub mod repository;
pub mod service;
pub mod uuid_util;
