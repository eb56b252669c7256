pub mod account;
pub mod amqp;
pub mod bonfire;
pub mod channels;
pub mod claims;
pub mod clock;
pub mod consent;
pub mod crond;
pub mod digest;
pub mod discord;
pub mod embeds;
pub mod erasure;
pub mod erasure_laws;
pub mod error;
pub mod ids;
pub mod members;
pub mod model;
pub mod mongo;
pub mod order;
pub mod policy;
pub mod previews;
pub mod pushd;
pub mod query;
pub mod rabbit;
pub mod ratelimits;
pub mod reference;
pub mod reports;
pub mod sponsor;
pub mod table;
pub mod text;
pub mod url;
pub mod users;
