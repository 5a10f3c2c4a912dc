//! The catalog's package records and the lookup of a category's listing.

use std::path::PathBuf;
use vstd::prelude::*;

verus! {

#[verifier::external_type_specification]
#[verifier::external_body]
pub struct ExPathBuf(PathBuf);

/// The categories of the catalog.
#[derive(Clone, Copy, Debug, PartialEq, Eq, Structural)]
pub enum Category {
    Working,
    Games,
    Video,
    Creating,
    Observing,
}

/// The kebab-case name of each category, as the catalog writes it.
pub open spec fn category_name(c: Category) -> Seq<char> {
    match c {
        Category::Working => "working"@,
        Category::Games => "games"@,
        Category::Video => "video"@,
        Category::Creating => "creating"@,
        Category::Observing => "observing"@,
    }
}

/// The category named `s`, if any.
pub open spec fn named_category(s: Seq<char>) -> Option<Category> {
    if s == "working"@ {
        Some(Category::Working)
    } else if s == "games"@ {
        Some(Category::Games)
    } else if s == "video"@ {
        Some(Category::Video)
    } else if s == "creating"@ {
        Some(Category::Creating)
    } else if s == "observing"@ {
        Some(Category::Observing)
    } else {
        None
    }
}

impl Category {
    /// The category's name.
    pub fn name(&self) -> (r: &'static str)
        ensures
            r@ == category_name(*self),
    {
        match self {
            Category::Working => "working",
            Category::Games => "games",
            Category::Video => "video",
            Category::Creating => "creating",
            Category::Observing => "observing",
        }
    }

    /// The category whose name is `s`, if any.
    pub fn parse(s: &str) -> (r: Option<Category>)
        ensures
            r == named_category(s@),
    {
        let t = String::from_str(s);
        if t == String::from_str("working") {
            Some(Category::Working)
        } else if t == String::from_str("games") {
            Some(Category::Games)
        } else if t == String::from_str("video") {
            Some(Category::Video)
        } else if t == String::from_str("creating") {
            Some(Category::Creating)
        } else if t == String::from_str("observing") {
            Some(Category::Observing)
        } else {
            None
        }
    }
}

/// A package as the catalog lists it.
#[derive(Debug)]
pub struct PackageBrief {
    pub name: String,
    pub intro: String,
    pub icon: PathBuf,
}

/// The flags that the catalog shows on a package.
#[derive(Debug, Clone)]
pub struct PackageFlags {
    pub unoffical: bool,
    pub verified: bool,
    pub non_native: bool,
    pub windows_app: bool,
    pub telemetry: bool,
    pub service_limited: bool,
}

/// Publication facts of a package.
#[derive(Debug, Clone)]
pub struct PackageInfo {
    pub publisher: String,
    pub source: String,
    pub version: String,
    pub inner_version: i32,
    pub update_date: String,
    pub install_size: i64,
    pub homepage: String,
}

/// The detailed information of a package.
#[derive(Debug)]
pub struct PackageDetail {
    pub name: String,
    pub icon: PathBuf,
    pub title: String,
    pub intro: String,
    pub category: Category,
    pub screenshot: Vec<PathBuf>,
    pub package_flags: PackageFlags,
    pub package_info: PackageInfo,
}

/// The packages of one category.
#[derive(Debug)]
pub struct CategoryIndex {
    pub category: Category,
    pub packages: Vec<PackageBrief>,
}

/// The message for a category name that names no category.
pub open spec fn unknown_category_message(name: Seq<char>) -> Seq<char> {
    "Unknown Category: "@ + name
}

/// The message for a category that the index does not list.
pub open spec fn missing_category_message(name: Seq<char>) -> Seq<char> {
    "Category "@ + name + " not found"@
}

/// The first listing of the index for category `c`, if any.
pub open spec fn first_listing(index: Seq<CategoryIndex>, c: Category, i: int) -> bool {
    &&& 0 <= i < index.len()
    &&& index[i].category == c
    &&& forall|j: int| 0 <= j < i ==> (#[trigger] index[j]).category != c
}

/// Picks out of the index's listings the one for the category named
/// `category`: an error when the name is no category, or when the index
/// lists none for it.
pub fn select_category(index: Vec<CategoryIndex>, category: &str) -> (r: Result<
    CategoryIndex,
    String,
>)
    ensures
        match named_category(category@) {
            None => r matches Err(e) && e@ == unknown_category_message(category@),
            Some(c) => if exists|i: int| first_listing(index@, c, i) {
                r matches Ok(l) && exists|i: int| first_listing(index@, c, i) && l == index@[i]
            } else {
                r matches Err(e) && e@ == missing_category_message(category@)
            },
        },
{
    let cat = match Category::parse(category) {
        Some(c) => c,
        None => {
            let mut e = String::from_str("Unknown Category: ");
            e.append(category);
            return Err(e);
        },
    };
    let mut i: usize = 0;
    while i < index.len()
        invariant
            i <= index@.len(),
            named_category(category@) == Some(cat),
            forall|j: int| 0 <= j < i ==> (#[trigger] index@[j]).category != cat,
        decreases index@.len() - i,
    {
        if index[i].category == cat {
            let ghost all = index@;
            let mut rest = index;
            let found = rest.remove(i);
            assert(first_listing(all, cat, i as int));
            return Ok(found);
        }
        i = i + 1;
    }
    let mut e = String::from_str("Category ");
    e.append(category);
    e.append(" not found");
    Err(e)
}

} // verus!
