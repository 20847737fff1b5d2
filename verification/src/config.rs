//! The immutable configuration the core runs under. It is assembled once at
//! startup by the (unverified) configuration loader and passed in; the core
//! never reads configuration sources itself.

use vstd::prelude::*;
use vstd::string::*;

verus! {

/// Settings for one run: the secret directory, the external cipher command
/// lines, and the password generation parameters.
#[derive(Clone)]
pub struct Config {
    pub home: String,
    pub encrypt_command: String,
    pub decrypt_command: String,
    pub password_length: usize,
    pub password_choices: String,
}

impl Config {
    /// A configuration the generator can honour: a password of the
    /// configured length can only be drawn if the pool has a character, so
    /// an empty pool is acceptable only with a zero length.
    pub open spec fn wf(&self) -> bool {
        self.password_length == 0 || self.password_choices@.len() > 0
    }

    /// The directory that holds one encrypted file per account.
    pub fn dir(&self) -> (r: &str)
        ensures
            r@ == self.home@,
    {
        self.home.as_str()
    }

    /// The command line that encrypts standard input to standard output.
    pub fn encrypt_cmd(&self) -> (r: &str)
        ensures
            r@ == self.encrypt_command@,
    {
        self.encrypt_command.as_str()
    }

    /// The command line that decrypts standard input to standard output.
    pub fn decrypt_cmd(&self) -> (r: &str)
        ensures
            r@ == self.decrypt_command@,
    {
        self.decrypt_command.as_str()
    }

    /// How many characters a generated password has.
    pub fn pw_len(&self) -> (r: usize)
        ensures
            r == self.password_length,
    {
        self.password_length
    }

    /// The characters a generated password draws from.
    pub fn choices(&self) -> (r: &str)
        ensures
            r@ == self.password_choices@,
    {
        self.password_choices.as_str()
    }
}

} // verus!
