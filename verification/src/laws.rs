//! What the endpoints are for: laws that relate what a client asks for and what the host answers to what
//! the host is asked and what the client gets, whatever the stages in between.

pub mod entries;
pub mod processes;
pub mod reading;
pub mod replies;
pub mod requests;
pub mod runs;
pub mod texts;
pub mod uploads;
pub mod users;
pub mod views;
pub mod watches;
