//! The mail service the exercises send their messages through.

use vstd::prelude::*;

verus! {

/// Where and as whom mail is sent.
pub struct MailerConfiguration {
    pub username: String,
    pub password: String,
    pub server_address: String,
    pub from_address: String,
}

/// Sends mail with the configured account.
pub struct Mailer {
    pub configuration: MailerConfiguration,
}

impl Mailer {
    pub fn new(configuration: MailerConfiguration) -> (m: Self)
        ensures
            m.configuration == configuration,
    {
        Mailer { configuration }
    }
}

} // verus!
