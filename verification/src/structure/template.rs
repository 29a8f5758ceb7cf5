//! The files of a template directory that are templates, not content.
use vstd::prelude::*;
use vstd::string::StringExecFns;
use crate::path::file_name;
use crate::path::path_file_name;
use crate::text::same_text;
use crate::text::texts;

verus! {

/// The name of the template of an article page.
pub const ARTICLE_TEMPLATE: &'static str = "_article.html";

/// The name of the template of the index page.
pub const INDEX_TEMPLATE: &'static str = "_index.html";

/// The name of the template of one entry of the index page.
pub const INDEX_LIST_TEMPLATE: &'static str = "_index-list.html";

/// The names of the template files.
pub open spec fn template_names() -> Seq<Seq<char>> {
    seq![ARTICLE_TEMPLATE@, INDEX_TEMPLATE@, INDEX_LIST_TEMPLATE@]
}

/// The paths of the template files, relative to the template directory.
pub fn template_file_paths() -> (paths: Vec<String>)
    ensures
        texts(paths@) == template_names(),
{
    let mut paths: Vec<String> = Vec::new();
    paths.push(String::from_str(ARTICLE_TEMPLATE));
    paths.push(String::from_str(INDEX_TEMPLATE));
    paths.push(String::from_str(INDEX_LIST_TEMPLATE));
    proof {
        assert(texts(paths@) =~= template_names());
    }
    paths
}

/// Whether the file at `path` is a template: its name is that of one.
pub fn is_template_file(path: &str) -> (is_template: bool)
    ensures
        is_template == (file_name(path@) matches Some(name) && template_names().contains(name)),
{
    match path_file_name(path) {
        Some(name) => {
            let hit = same_text(name.as_str(), ARTICLE_TEMPLATE) || same_text(
                name.as_str(),
                INDEX_TEMPLATE,
            ) || same_text(name.as_str(), INDEX_LIST_TEMPLATE);
            proof {
                let names = template_names();
                if hit {
                    if name@ == ARTICLE_TEMPLATE@ {
                        assert(names[0] == name@);
                    } else if name@ == INDEX_TEMPLATE@ {
                        assert(names[1] == name@);
                    } else {
                        assert(names[2] == name@);
                    }
                } else if names.contains(name@) {
                    let k = choose|k: int| 0 <= k < names.len() && names[k] == name@;
                    assert(k == 0 || k == 1 || k == 2);
                }
            }
            hit
        },
        None => false,
    }
}

} // verus!
