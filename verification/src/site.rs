//! What a page says of itself in its head.

use vstd::prelude::*;

verus! {

/// The title, description, address and kind of a page.
#[derive(Debug)]
pub struct Blog {
    pub title: String,
    pub description: String,
    pub url: String,
    pub og_type: String,
}

/// The model of a `Blog`.
pub ghost struct BlogModel {
    pub title: Seq<char>,
    pub description: Seq<char>,
    pub url: Seq<char>,
    pub og_type: Seq<char>,
}

impl View for Blog {
    type V = BlogModel;

    open spec fn view(&self) -> BlogModel {
        BlogModel { title: self.title@, description: self.description@, url: self.url@, og_type: self.og_type@ }
    }
}

/// The page without any text: what `Blog::new` gives.
pub open spec fn blank() -> BlogModel {
    BlogModel {
        title: Seq::<char>::empty(),
        description: Seq::<char>::empty(),
        url: Seq::<char>::empty(),
        og_type: Seq::<char>::empty(),
    }
}

impl Default for Blog {
    fn default() -> (r: Blog)
        ensures
            r@ == blank(),
    {
        Blog { title: String::new(), description: String::new(), url: String::new(), og_type: String::new() }
    }
}

impl Blog {
    /// A page with every text empty.
    pub fn new() -> (r: Blog)
        ensures
            r@ == blank(),
    {
        Blog { title: String::new(), description: String::new(), url: String::new(), og_type: String::new() }
    }

    /// The page with the title `title`.
    pub fn set_title(self, title: &str) -> (r: Blog)
        ensures
            r@ == (BlogModel { title: title@, ..self@ }),
    {
        let mut r = self;
        r.title = title.to_owned();
        r
    }

    /// The page with the description `description`.
    pub fn set_description(self, description: &str) -> (r: Blog)
        ensures
            r@ == (BlogModel { description: description@, ..self@ }),
    {
        let mut r = self;
        r.description = description.to_owned();
        r
    }

    /// The page with the address `url`.
    pub fn set_url(self, url: &str) -> (r: Blog)
        ensures
            r@ == (BlogModel { url: url@, ..self@ }),
    {
        let mut r = self;
        r.url = url.to_owned();
        r
    }

    /// The page with the kind `og_type`.
    pub fn set_og_type(self, og_type: &str) -> (r: Blog)
        ensures
            r@ == (BlogModel { og_type: og_type@, ..self@ }),
    {
        let mut r = self;
        r.og_type = og_type.to_owned();
        r
    }
}

} // verus!
