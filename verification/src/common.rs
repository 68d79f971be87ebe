use vstd::prelude::*;

verus! {

/// The name of a package index file: one per channel, and `index.json` for
/// no channel.
pub open spec fn index_file_name(channel: Option<Seq<char>>) -> Seq<char> {
    match channel {
        Some(c) => "index."@ + c + ".json"@,
        None => "index.json"@,
    }
}

/// The name of the package index file of a channel.
pub fn index_fn(channel: Option<&str>) -> (r: String)
    ensures
        r@ == index_file_name(
            match channel {
                Some(c) => Some(c@),
                None => None,
            },
        ),
{
    match channel {
        Some(c) => {
            let mut name = String::from_str("index.");
            name.append(c);
            name.append(".json");
            name
        },
        None => String::from_str("index.json"),
    }
}

/// How often a package was downloaded.
#[derive(Debug)]
pub struct PackageCount {
    pub package_id: String,
    pub count: i64,
}

/// A user of the download statistics service.
#[derive(Debug)]
pub struct User {
    pub id: Vec<u8>,
    pub username: String,
    pub token: Vec<u8>,
}

/// A user to be added to the download statistics service.
#[derive(Debug)]
pub struct NewUser {
    pub username: String,
    pub token: Vec<u8>,
}

} // verus!
