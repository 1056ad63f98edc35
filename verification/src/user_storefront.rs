use vstd::prelude::*;

verus! {

/// The storefront lookup's response shape: a `data` array of storefronts.
pub struct UserStorefront {
    pub data: Vec<Data>,
}

/// One storefront: its identifier and descriptive attributes.
pub struct Data {
    pub id: String,
    pub data_type: String,
    pub href: String,
    pub attributes: Attributes,
}

/// Descriptive attributes of a storefront.
pub struct Attributes {
    pub supported_language_tags: Vec<String>,
    pub default_language_tag: String,
    pub name: String,
    pub explicit_content_policy: String,
}

impl UserStorefront {
    /// The identifier of the first storefront of the response, when the
    /// `data` array is not empty.
    pub fn first_id(&self) -> (r: Option<&String>)
        ensures
            self.data@.len() == 0 <==> r is None,
            self.data@.len() > 0 ==> r == Some(&self.data@[0].id),
    {
        if self.data.len() == 0 {
            None
        } else {
            Some(&self.data[0].id)
        }
    }
}

} // verus!
