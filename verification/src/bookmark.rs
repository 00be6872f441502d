//! The bookmark value type: a shell command with an annotation, a list of
//! tags, and the name of the collection that owns it.

use vstd::prelude::*;

use crate::text;
use crate::text::{contains_sub, is_substring, join, join_spec};

verus! {

/// The collection a bookmark falls back to when none is given.
pub open spec fn default_collection_name() -> Seq<char> {
    "default"@
}

/// Mathematical image of a [`Bookmark`].
#[verifier::ext_equal]
pub ghost struct BookmarkView {
    pub command: Seq<char>,
    pub annotation: Seq<char>,
    pub tags: Seq<Seq<char>>,
    pub collection: Seq<char>,
}

/// A stored shell command with its annotation, tags and owning collection.
/// The collection name is never empty: constructors fall back to the
/// default collection when a blank name is given.
#[derive(Debug)]
pub struct Bookmark {
    command: String,
    annotation: String,
    tags: Vec<String>,
    collection: String,
}

impl View for Bookmark {
    type V = BookmarkView;

    closed spec fn view(&self) -> BookmarkView {
        BookmarkView {
            command: self.command@,
            annotation: self.annotation@,
            tags: self.tags.deep_view(),
            collection: self.collection@,
        }
    }
}

impl DeepView for Bookmark {
    type V = BookmarkView;

    open spec fn deep_view(&self) -> BookmarkView {
        self.view()
    }
}

/// A bookmark matches a keyword when the keyword is a substring of its
/// command, its annotation, its collection name, or any of its tags.
pub open spec fn bookmark_matches(b: BookmarkView, keyword: Seq<char>) -> bool {
    ||| is_substring(b.command, keyword)
    ||| is_substring(b.annotation, keyword)
    ||| is_substring(b.collection, keyword)
    ||| exists|i: int| 0 <= i < b.tags.len() && is_substring(#[trigger] b.tags[i], keyword)
}

/// A bookmark matches a keyword list when it matches at least one keyword;
/// the empty keyword list matches everything, as the empty keyword does.
pub open spec fn bookmark_matches_any(b: BookmarkView, keywords: Seq<Seq<char>>) -> bool {
    ||| keywords.len() == 0
    ||| exists|k: int| 0 <= k < keywords.len() && bookmark_matches(b, #[trigger] keywords[k])
}

impl Bookmark {
    /// Builds a bookmark from its four raw fields; a blank collection name
    /// falls back to the default collection.
    pub fn new(command: &str, annotation: &str, tags: &Vec<String>, collection: &str) -> (r:
        Bookmark)
        ensures
            r@.command == command@,
            r@.annotation == annotation@,
            r@.tags == tags.deep_view(),
            r@.collection == if collection@.len() == 0 {
                default_collection_name()
            } else {
                collection@
            },
    {
        let coll: String = if collection.is_empty() {
            String::from_str("default")
        } else {
            collection.to_owned()
        };
        Bookmark {
            command: command.to_owned(),
            annotation: annotation.to_owned(),
            tags: clone_string_vec(tags),
            collection: coll,
        }
    }

    /// Builds a bookmark in the default collection.
    pub fn default(command: &str, annotation: &str, tags: &Vec<String>) -> (r: Bookmark)
        ensures
            r@.command == command@,
            r@.annotation == annotation@,
            r@.tags == tags.deep_view(),
            r@.collection == default_collection_name(),
    {
        proof {
            reveal_strlit("");
        }
        Bookmark::new(command, annotation, tags, "")
    }

    pub fn get_command(&self) -> (r: &String)
        ensures
            r@ == self@.command,
    {
        &self.command
    }

    pub fn set_command(&mut self, command: &str)
        ensures
            final(self)@ == (BookmarkView { command: command@, ..old(self)@ }),
    {
        self.command = command.to_owned();
    }

    pub fn get_annotation(&self) -> (r: &String)
        ensures
            r@ == self@.annotation,
    {
        &self.annotation
    }

    pub fn set_annotation(&mut self, annotation: &str)
        ensures
            final(self)@ == (BookmarkView { annotation: annotation@, ..old(self)@ }),
    {
        self.annotation = annotation.to_owned();
    }

    pub fn get_tags(&self) -> (r: &Vec<String>)
        ensures
            r.deep_view() == self@.tags,
    {
        &self.tags
    }

    pub fn set_tags(&mut self, tags: &Vec<String>)
        ensures
            final(self)@ == (BookmarkView { tags: tags.deep_view(), ..old(self)@ }),
    {
        self.tags = clone_string_vec(tags);
    }

    pub fn get_collection(&self) -> (r: &String)
        ensures
            r@ == self@.collection,
    {
        &self.collection
    }

    /// The tags joined into one string with `delimiter` between them.
    pub fn get_tags_as_string(&self, delimiter: &str) -> (r: String)
        ensures
            r@ == join_spec(self@.tags, delimiter@),
    {
        join(&self.tags, delimiter)
    }

    /// Whether the command contains `s` as a substring.
    pub fn command_contains(&self, s: &str) -> (r: bool)
        ensures
            r == is_substring(self@.command, s@),
    {
        contains_sub(self.command.as_str(), s)
    }

    /// Whether the annotation contains `s` as a substring.
    pub fn annotation_contains(&self, s: &str) -> (r: bool)
        ensures
            r == is_substring(self@.annotation, s@),
    {
        contains_sub(self.annotation.as_str(), s)
    }

    /// Whether any tag contains `s` as a substring.
    pub fn tags_contains(&self, s: &str) -> (r: bool)
        ensures
            r == exists|i: int|
                0 <= i < self@.tags.len() && is_substring(#[trigger] self@.tags[i], s@),
    {
        let mut i: usize = 0;
        while i < self.tags.len()
            invariant
                i <= self@.tags.len(),
                self@.tags.len() == self.tags.len(),
                forall|k: int| 0 <= k < i ==> !is_substring(#[trigger] self@.tags[k], s@),
            decreases self.tags.len() - i,
        {
            assert(self@.tags[i as int] == self.tags@[i as int]@);
            if contains_sub(self.tags[i].as_str(), s) {
                return true;
            }
            i = i + 1;
        }
        false
    }

    /// Whether this bookmark matches `keyword` in any of its fields.
    pub fn matches_keyword(&self, keyword: &str) -> (r: bool)
        ensures
            r == bookmark_matches(self@, keyword@),
    {
        self.command_contains(keyword) || self.annotation_contains(keyword)
            || contains_sub(self.collection.as_str(), keyword) || self.tags_contains(keyword)
    }

    /// Whether this bookmark matches at least one of `keywords`; with no
    /// keywords at all every bookmark matches.
    pub fn matches_any_keyword(&self, keywords: &Vec<String>) -> (r: bool)
        ensures
            r == bookmark_matches_any(self@, keywords.deep_view()),
    {
        if keywords.is_empty() {
            return true;
        }
        let mut k: usize = 0;
        while k < keywords.len()
            invariant
                k <= keywords.len(),
                keywords.deep_view().len() == keywords.len(),
                forall|j: int|
                    0 <= j < k ==> !bookmark_matches(self@, #[trigger] keywords.deep_view()[j]),
            decreases keywords.len() - k,
        {
            if self.matches_keyword(keywords[k].as_str()) {
                assert(keywords.deep_view()[k as int] == keywords@[k as int]@);
                return true;
            }
            assert(keywords.deep_view()[k as int] == keywords@[k as int]@);
            k = k + 1;
        }
        false
    }

    /// The bookmark as the ordered field list shown in the result table and
    /// used to pre-fill the input dialog: command, annotation, tags joined
    /// by a comma, collection.
    pub fn to_vec(&self) -> (r: Vec<String>)
        ensures
            r.deep_view().len() == 4,
            r.deep_view()[0] == self@.command,
            r.deep_view()[1] == self@.annotation,
            r.deep_view()[2] == join_spec(self@.tags, ", "@),
            r.deep_view()[3] == self@.collection,
    {
        let mut r: Vec<String> = Vec::new();
        r.push(self.command.clone());
        r.push(self.annotation.clone());
        r.push(self.get_tags_as_string(", "));
        r.push(self.collection.clone());
        r
    }

    /// The bookmark as labelled name/value pairs.
    pub fn to_tuple_vec(&self) -> (r: Vec<(String, String)>)
        ensures
            r@.len() == 3,
            r@[0].0@ == "command"@ && r@[0].1@ == self@.command,
            r@[1].0@ == "annotation"@ && r@[1].1@ == self@.annotation,
            r@[2].0@ == "tags"@ && r@[2].1@ == join_spec(self@.tags, ", "@),
    {
        let mut r: Vec<(String, String)> = Vec::new();
        r.push((String::from_str("command"), self.command.clone()));
        r.push((String::from_str("annotation"), self.annotation.clone()));
        r.push((String::from_str("tags"), self.get_tags_as_string(", ")));
        r
    }
}

impl Clone for Bookmark {
    fn clone(&self) -> (r: Self)
        ensures
            r@ == self@,
    {
        Bookmark {
            command: self.command.clone(),
            annotation: self.annotation.clone(),
            tags: clone_string_vec(&self.tags),
            collection: self.collection.clone(),
        }
    }
}

impl PartialEq for Bookmark {
    fn eq(&self, other: &Bookmark) -> (r: bool) {
        let r = self.command.eq(&other.command) && self.annotation.eq(&other.annotation)
            && string_vecs_equal(&self.tags, &other.tags) && self.collection.eq(
            &other.collection,
        );
        proof {
            if r {
                assert(self@ =~= other@);
            }
        }
        r
    }
}

impl vstd::std_specs::cmp::PartialEqSpecImpl for Bookmark {
    open spec fn obeys_eq_spec() -> bool {
        true
    }

    open spec fn eq_spec(&self, other: &Bookmark) -> bool {
        self@ == other@
    }
}

impl Eq for Bookmark {

}

/// Copies a vector of strings, preserving its contents.
pub fn clone_string_vec(v: &Vec<String>) -> (r: Vec<String>)
    ensures
        r.deep_view() == v.deep_view(),
{
    let r = v.clone();
    proof {
        assert(r.deep_view() =~~= v.deep_view());
    }
    r
}

/// Whether two vectors of strings hold the same strings in the same order.
pub fn string_vecs_equal(a: &Vec<String>, b: &Vec<String>) -> (r: bool)
    ensures
        r == (a.deep_view() == b.deep_view()),
{
    if a.len() != b.len() {
        assert(a.deep_view().len() != b.deep_view().len());
        return false;
    }
    let mut i: usize = 0;
    while i < a.len()
        invariant
            a.deep_view().len() == a.len(),
            b.deep_view().len() == b.len(),
            a.len() == b.len(),
            i <= a.len(),
            forall|k: int| 0 <= k < i ==> a.deep_view()[k] == b.deep_view()[k],
        decreases a.len() - i,
    {
        if !a[i].eq(&b[i]) {
            assert(a.deep_view()[i as int] != b.deep_view()[i as int]);
            return false;
        }
        assert(a.deep_view()[i as int] == b.deep_view()[i as int]);
        i = i + 1;
    }
    proof {
        assert(a.deep_view() =~= b.deep_view());
    }
    true
}

} // verus!
