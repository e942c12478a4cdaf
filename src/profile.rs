use vstd::prelude::*;

verus! {

/// The mathematical form of a profile: its three fields as text.
pub struct ProfileView {
    pub name: Seq<char>,
    pub user_ip: Seq<char>,
    pub key_path: Seq<char>,
}

/// A named SSH connection record.
#[derive(Debug)]
pub struct ServerProfile {
    /// Unique name, used as the key of the record in the store.
    pub name: String,
    /// The `user@host` token handed to the SSH client as it is.
    pub user_ip: String,
    /// Path of the private key file; never checked here.
    pub key_path: String,
}

impl View for ServerProfile {
    type V = ProfileView;

    open spec fn view(&self) -> ProfileView {
        ProfileView { name: self.name@, user_ip: self.user_ip@, key_path: self.key_path@ }
    }
}

impl ServerProfile {
    pub fn new(name: String, user_ip: String, key_path: String) -> (r: ServerProfile)
        ensures
            r@ == (ProfileView { name: name@, user_ip: user_ip@, key_path: key_path@ }),
    {
        ServerProfile { name, user_ip, key_path }
    }

    /// The profile's name.
    pub fn name(&self) -> (r: &str)
        ensures
            r@ == self.name@,
    {
        self.name.as_str()
    }

    /// The `user@host` token.
    pub fn user_ip(&self) -> (r: &str)
        ensures
            r@ == self.user_ip@,
    {
        self.user_ip.as_str()
    }

    /// The path of the private key.
    pub fn key_path(&self) -> (r: &str)
        ensures
            r@ == self.key_path@,
    {
        self.key_path.as_str()
    }

    /// A copy that holds the same text in each field.
    pub fn duplicate(&self) -> (r: ServerProfile)
        ensures
            r@ == self@,
    {
        ServerProfile {
            name: self.name.clone(),
            user_ip: self.user_ip.clone(),
            key_path: self.key_path.clone(),
        }
    }
}

} // verus!
