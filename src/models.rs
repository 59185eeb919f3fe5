use vstd::prelude::*;

verus! {

/// Attribution written into every new row until links have owners.
pub const DEFAULT_CREATOR: &'static str = "user";

/// A stored mapping. `created_at` is seconds since the Unix epoch, set by the
/// store when the row is written.
pub struct Url {
    pub id: i32,
    pub name: String,
    pub short_url: String,
    pub created_at: Option<i64>,
    pub created_by: String,
}

/// The columns a caller supplies when inserting a mapping.
pub struct NewUrl<'a> {
    pub name: &'a str,
    pub short_url: &'a str,
    pub created_by: &'a str,
}

impl<'a> NewUrl<'a> {
    /// The row to insert for `name` under identifier `short_url`, attributed
    /// to the default creator.
    pub fn new(name: &'a str, short_url: &'a str) -> (r: NewUrl<'a>)
        ensures
            r.name@ == name@,
            r.short_url@ == short_url@,
            r.created_by@ == DEFAULT_CREATOR@,
    {
        NewUrl { name, short_url, created_by: DEFAULT_CREATOR }
    }
}

impl Url {
    /// A field-by-field copy.
    pub fn duplicate(&self) -> (r: Url)
        ensures
            r == *self,
    {
        Url {
            id: self.id,
            name: self.name.clone(),
            short_url: self.short_url.clone(),
            created_at: self.created_at,
            created_by: self.created_by.clone(),
        }
    }
}

} // verus!
