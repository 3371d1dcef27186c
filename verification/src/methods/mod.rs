//! The API methods that the tools call, each as the request it makes.

#[allow(non_snake_case)]
pub mod messages_getChat;
#[allow(non_snake_case)]
pub mod polls_getById;
#[allow(non_snake_case)]
pub mod polls_getVoters;
