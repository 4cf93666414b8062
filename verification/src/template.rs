//! Loading templates into the registry, reading render requests, and sending
//! rendered text on its way.

use vstd::prelude::*;
use vstd::std_specs::iter::IteratorSpec;
use crate::error::{describe_io, TemplateError};
use crate::path::{
    extension_of, file_extension, file_name, file_stem, lemma_stem_and_extension,
    stem_and_extension_of, stem_of,
};
use crate::registry::Registry;
use crate::text::{cut_once, option_str_view, option_view, split_once};

verus! {

/// What a render request asks for: the template's name, and the file that the
/// text goes to, where it names one. The request is cut at its first `=`; one
/// without `=` is all name. A request with an empty name asks for nothing.
pub open spec fn render_request(arg: Seq<char>) -> Option<(Seq<char>, Option<Seq<char>>)> {
    let (template, output) = match split_once(arg, '=') {
        Some((head, tail)) => (head, Some(tail)),
        None => (arg, None),
    };
    if template.len() == 0 {
        None
    } else {
        Some((template, output))
    }
}

/// The message for a render request without a template name.
pub open spec fn empty_template_name() -> Seq<char> {
    "Template name cannot be empty"@
}

/// Reads a render request, `TEMPLATE=OUTPUT` or `TEMPLATE`.
pub fn parse_render_arg(arg: &str) -> (parsed: Result<(String, Option<String>), TemplateError>)
    ensures
        match parsed {
            Ok((template, output)) => render_request(arg@) == Some(
                (template@, option_view(output)),
            ),
            Err(e) => {
                &&& render_request(arg@) is None
                &&& e matches TemplateError::InvalidArgument(text)
                &&& text@ == empty_template_name()
            },
        },
{
    let (template, output) = match cut_once(arg, '=') {
        Some((head, tail)) => (head, Some(tail)),
        None => (arg.to_owned(), None),
    };
    if template.as_str().unicode_len() == 0 {
        return Err(
            TemplateError::InvalidArgument(String::from_str("Template name cannot be empty")),
        );
    }
    Ok((template, output))
}

/// A rendered template on its way out.
#[derive(Debug)]
pub struct Output {
    /// The rendered text.
    pub text: String,
    /// The file that the text is to be written to, over what the file holds;
    /// `None` for standard output.
    pub target: Option<String>,
}

/// What becomes of the engine's answer to a request to render a template:
/// its text goes out, as it is, to `output`, or to standard output where
/// `output` is `None`; its error is the run's error.
///
/// The engine is the caller's to ask, with the registry's engine, the
/// template's name and the context. This function takes the answer.
pub fn render_template(answer: Result<String, tera::Error>, output: Option<&str>) -> (out: Result<
    Output,
    TemplateError,
>)
    ensures
        match answer {
            Ok(text) => out matches Ok(made) && made.text == text && option_view(made.target)
                == option_str_view(output),
            Err(cause) => out matches Err(e) && e == TemplateError::TeraError(cause),
        },
{
    match answer {
        Ok(text) => {
            let target = match output {
                Some(path) => Some(path.to_owned()),
                None => None,
            };
            Ok(Output { text, target })
        },
        Err(cause) => Err(TemplateError::TeraError(cause)),
    }
}

/// A file that a directory listing named, with what reading it gave.
#[derive(Debug)]
pub struct DirFile {
    /// The file's path. Where the path is not valid Unicode, this is the path
    /// with the replacement character in place of what is not.
    pub path: String,
    /// Whether `path` is the file's path letter for letter.
    pub exact: bool,
    /// The file's text, or why it could not be read. Looked at only where
    /// `path` names a template file.
    pub content: Result<String, std::io::Error>,
}

/// How `text` looks between quotes, as the `Debug` form of a string writes
/// it, with its escapes.
pub uninterp spec fn quoted(text: Seq<char>) -> Seq<char>;

/// The `Debug` form of `text`.
#[verifier::external_body]
fn quote(text: &str) -> (shown: String)
    ensures
        shown@ == quoted(text@),
{
    format!("{:?}", text)
}

/// Whether `path` names a template file: one with the extension `tpl`.
pub open spec fn is_template(path: Seq<char>) -> bool {
    file_extension(path) == Some("tpl"@)
}

/// The message for a template file that is not there.
pub open spec fn file_not_found(path: Seq<char>) -> Seq<char> {
    "Template file not found: "@ + path
}

/// The message for a path from which no template name can be had; `shown` is
/// the path as the message shows it.
pub open spec fn invalid_filename(shown: Seq<char>) -> Seq<char> {
    "Invalid filename: "@ + shown
}

/// What the message for a template file that is there and cannot be read
/// begins with; the system's description of the failure follows.
pub open spec fn unreadable_file(path: Seq<char>) -> Seq<char> {
    "Template file not readable '"@ + path + "': "@
}

/// What the message for a directory that cannot be listed begins with; the
/// system's description of the failure follows.
pub open spec fn invalid_directory(dir: Seq<char>) -> Seq<char> {
    "Invalid template directory '"@ + dir + "': "@
}

/// Whether loading stops at this item of a listing: where the listing itself
/// failed, or at a template file that has no name in Unicode or could not be
/// read.
pub open spec fn faulty(item: Result<DirFile, std::io::Error>) -> bool {
    match item {
        Ok(file) => is_template(file.path@) && (!file.exact || file.content is Err),
        Err(_) => true,
    }
}

/// Whether `e` is the failure that the faulty item `item` raises.
pub open spec fn failure_of(item: Result<DirFile, std::io::Error>, e: TemplateError) -> bool {
    match item {
        Ok(file) => if !file.exact {
            e matches TemplateError::InvalidArgument(text) && text@ == invalid_filename(
                quoted(file.path@),
            )
        } else {
            file.content matches Err(cause) && e == TemplateError::Io(cause)
        },
        Err(cause) => e == TemplateError::Io(cause),
    }
}

/// Whether this item of a listing is a template file that can be registered.
pub open spec fn loadable(item: Result<DirFile, std::io::Error>) -> bool {
    item matches Ok(file) && is_template(file.path@) && file.exact && file.content is Ok
}

/// What is registered once the first `n` items of a listing are taken in:
/// each template file among them, under its stem, over what `before` holds.
pub open spec fn registered_from(
    before: Map<Seq<char>, Seq<char>>,
    listing: Seq<Result<DirFile, std::io::Error>>,
    n: int,
) -> Map<Seq<char>, Seq<char>>
    decreases n,
{
    if n <= 0 {
        before
    } else if loadable(listing[n - 1]) {
        registered_from(before, listing, n - 1).insert(
            file_stem(listing[n - 1]->Ok_0.path@)->0,
            listing[n - 1]->Ok_0.content->Ok_0@,
        )
    } else {
        registered_from(before, listing, n - 1)
    }
}

/// How many of the first `n` items of a listing are template files that can
/// be registered.
pub open spec fn templates_among(listing: Seq<Result<DirFile, std::io::Error>>, n: int) -> int
    decreases n,
{
    if n <= 0 {
        0
    } else if loadable(listing[n - 1]) {
        templates_among(listing, n - 1) + 1
    } else {
        templates_among(listing, n - 1)
    }
}

/// The name that the file at position `i` of a listing is registered under.
pub open spec fn stem_at(listing: Seq<Result<DirFile, std::io::Error>>, i: int) -> Seq<char> {
    file_stem(listing[i]->Ok_0.path@)->0
}

/// The text of the file at position `i` of a listing.
pub open spec fn text_at(listing: Seq<Result<DirFile, std::io::Error>>, i: int) -> Seq<char> {
    listing[i]->Ok_0.content->Ok_0@
}

/// Whether a listing is that of a directory which holds template files only,
/// all of them read: every item is a template file that can be registered,
/// and no two of them have the same file name.
pub open spec fn only_templates(listing: Seq<Result<DirFile, std::io::Error>>) -> bool {
    &&& forall|i: int| 0 <= i < listing.len() ==> loadable(#[trigger] listing[i])
    &&& forall|i: int, j: int|
        0 <= i < j < listing.len() ==> file_name((#[trigger] listing[i])->Ok_0.path@) != file_name(
            (#[trigger] listing[j])->Ok_0.path@,
        )
}

proof fn lemma_templates_taken_in(listing: Seq<Result<DirFile, std::io::Error>>, n: int)
    requires
        only_templates(listing),
        0 <= n <= listing.len(),
    ensures
        registered_from(Map::empty(), listing, n).dom().finite(),
        registered_from(Map::empty(), listing, n).len() == n,
        templates_among(listing, n) == n,
        forall|i: int|
            0 <= i < n ==> registered_from(Map::empty(), listing, n).contains_key(
                #[trigger] stem_at(listing, i),
            ) && registered_from(Map::empty(), listing, n)[stem_at(listing, i)] == text_at(
                listing,
                i,
            ),
        forall|key: Seq<char>|
            registered_from(Map::empty(), listing, n).contains_key(key) ==> exists|i: int|
                0 <= i < n && #[trigger] stem_at(listing, i) == key,
    decreases n,
{
    if n > 0 {
        lemma_templates_taken_in(listing, n - 1);
        let before = registered_from(Map::<Seq<char>, Seq<char>>::empty(), listing, n - 1);
        let after = registered_from(Map::<Seq<char>, Seq<char>>::empty(), listing, n);
        let last = n - 1;
        assert(loadable(listing[last]));
        assert(after == before.insert(stem_at(listing, last), text_at(listing, last)));
        assert forall|i: int| 0 <= i < last implies stem_at(listing, i) != stem_at(
            listing,
            last,
        ) by {
            assert(loadable(listing[i]));
            lemma_stem_and_extension(listing[i]->Ok_0.path@);
            lemma_stem_and_extension(listing[last]->Ok_0.path@);
            assert(file_name(listing[i]->Ok_0.path@) != file_name(listing[last]->Ok_0.path@));
        }
        if before.contains_key(stem_at(listing, last)) {
            let i = choose|i: int|
                0 <= i < last && #[trigger] stem_at(listing, i) == stem_at(listing, last);
            assert(false);
        }
        assert forall|key: Seq<char>| after.contains_key(key) implies exists|i: int|
            0 <= i < n && #[trigger] stem_at(listing, i) == key by {
            if key == stem_at(listing, last) {
            } else {
                assert(before.contains_key(key));
                let i = choose|i: int| 0 <= i < last && #[trigger] stem_at(listing, i) == key;
                assert(0 <= i < n && stem_at(listing, i) == key);
            }
        }
    }
}

/// A directory that holds template files only, loaded into an empty
/// registry, gives one entry for each file: under the file's stem, with the
/// file's text as its source.
pub proof fn lemma_directory_of_templates(listing: Seq<Result<DirFile, std::io::Error>>)
    requires
        only_templates(listing),
    ensures
        ({
            let registered = registered_from(Map::empty(), listing, listing.len() as int);
            &&& registered.dom().finite()
            &&& registered.len() == listing.len()
            &&& templates_among(listing, listing.len() as int) == listing.len()
            &&& forall|i: int|
                0 <= i < listing.len() ==> registered.contains_key(#[trigger] stem_at(listing, i))
                    && registered[stem_at(listing, i)] == text_at(listing, i)
            &&& forall|key: Seq<char>|
                registered.contains_key(key) ==> exists|i: int|
                    0 <= i < listing.len() && #[trigger] stem_at(listing, i) == key
        }),
{
    lemma_templates_taken_in(listing, listing.len() as int);
}

/// Whether loading stops at this item of a listing. A caller that gathers a
/// listing item by item need not go on behind such an item.
pub fn ends_loading(item: &Result<DirFile, std::io::Error>) -> (yes: bool)
    ensures
        yes == faulty(*item),
{
    match item {
        Ok(file) => is_template_path(file.path.as_str()) && (!file.exact || file.content.is_err()),
        Err(_) => true,
    }
}

/// Whether `path` names a template file.
pub fn is_template_path(path: &str) -> (yes: bool)
    ensures
        yes == is_template(path@),
{
    match extension_of(path) {
        Some(extension) => extension == String::from_str("tpl"),
        None => false,
    }
}

/// Registers the template files of a directory, each under its stem.
///
/// `listing` is what listing the directory `dir` gave: the failure, or its
/// files in the order the system named them, each item being a failure of the
/// listing at that point or a file with what reading it gave. Files that are
/// no template files are passed over. The first item that cannot be taken in
/// ends the loading: its fault, or the engine's refusal of a template. The
/// count of registered files comes back with the registry.
pub fn load_templates_from_dir(
    registry: Registry,
    dir: &str,
    listing: Result<Vec<Result<DirFile, std::io::Error>>, std::io::Error>,
) -> (loaded: Result<(Registry, usize), TemplateError>)
    ensures
        match listing {
            Ok(items) => match loaded {
                Ok((after, count)) => {
                    &&& forall|i: int| 0 <= i < items@.len() ==> !faulty(#[trigger] items@[i])
                    &&& after@ == registered_from(registry@, items@, items@.len() as int)
                    &&& count == templates_among(items@, items@.len() as int)
                },
                Err(e) => exists|k: int|
                    {
                        &&& 0 <= k < items@.len()
                        &&& forall|j: int| 0 <= j < k ==> !faulty(#[trigger] items@[j])
                        &&& if faulty(#[trigger] items@[k]) {
                            failure_of(items@[k], e)
                        } else {
                            loadable(items@[k]) && e is TeraError
                        }
                    },
            },
            Err(_) => {
                &&& loaded matches Err(TemplateError::InvalidArgument(text))
                &&& invalid_directory(dir@).is_prefix_of(text@)
            },
        },
{
    let items = match listing {
        Ok(items) => items,
        Err(cause) => {
            let heading = String::from_str("Invalid template directory '").concat(dir).concat(
                "': ",
            );
            let ghost begun = heading@;
            let text = heading.concat(describe_io(&cause).as_str());
            assert(text@.subrange(0, begun.len() as int) =~= begun);
            return Err(TemplateError::InvalidArgument(text));
        },
    };
    let ghost before = registry@;
    let ghost all = items@;
    let total = items.len();
    let mut registry = registry;
    let mut count: usize = 0;
    for item in it: items.into_iter()
        invariant
            it.seq() == all,
            listing is Ok,
            listing->Ok_0@ == all,
            all.len() == total,
            count == templates_among(all, it.index() as int),
            count <= it.index(),
            registry@ == registered_from(before, all, it.index() as int),
            forall|j: int| 0 <= j < it.index() ==> !faulty(#[trigger] all[j]),
    {
        let ghost k = it.index() as int;
        assert(item == all[k]);
        match item {
            Ok(file) => {
                let DirFile { path, exact, content } = file;
                let name = match stem_and_extension_of(path.as_str()) {
                    Some((stem, Some(extension))) => if extension == String::from_str("tpl") {
                        Some(stem)
                    } else {
                        None
                    },
                    _ => None,
                };
                if let Some(name) = name {
                    if !exact {
                        let text = String::from_str("Invalid filename: ").concat(
                            quote(path.as_str()).as_str(),
                        );
                        return Err(TemplateError::InvalidArgument(text));
                    }
                    let text = match content {
                        Ok(text) => text,
                        Err(cause) => {
                            return Err(TemplateError::Io(cause));
                        },
                    };
                    registry = match registry.register(name.as_str(), text.as_str()) {
                        Ok(registry) => registry,
                        Err(e) => {
                            return Err(e);
                        },
                    };
                    count += 1;
                }
            },
            Err(cause) => {
                return Err(TemplateError::Io(cause));
            },
        }
    }
    Ok((registry, count))
}

/// Registers one template file under its stem, whatever its extension.
///
/// `exists` says whether the path was found, and `content` is what reading
/// it gave. A path that was not found, one without a file name, and a file
/// that could not be read are each an invalid argument. The name that the
/// file was registered under comes back with the registry.
pub fn load_template_file(
    registry: Registry,
    path: &str,
    exists: bool,
    content: Result<String, std::io::Error>,
) -> (loaded: Result<(Registry, String), TemplateError>)
    ensures
        match loaded {
            Ok((after, name)) => {
                &&& exists
                &&& file_stem(path@) == Some(name@)
                &&& content matches Ok(text)
                &&& after@ == registry@.insert(name@, text@)
            },
            Err(e) => if !exists {
                e matches TemplateError::InvalidArgument(text) && text@ == file_not_found(path@)
            } else if file_stem(path@) is None {
                e matches TemplateError::InvalidArgument(text) && text@ == invalid_filename(path@)
            } else {
                match content {
                    Ok(_) => e is TeraError,
                    Err(_) => e matches TemplateError::InvalidArgument(text) && unreadable_file(
                        path@,
                    ).is_prefix_of(text@),
                }
            },
        },
{
    if !exists {
        let text = String::from_str("Template file not found: ").concat(path);
        return Err(TemplateError::InvalidArgument(text));
    }
    let name = match stem_of(path) {
        Some(name) => name,
        None => {
            let text = String::from_str("Invalid filename: ").concat(path);
            return Err(TemplateError::InvalidArgument(text));
        },
    };
    let text = match content {
        Ok(text) => text,
        Err(cause) => {
            let heading = String::from_str("Template file not readable '").concat(path).concat(
                "': ",
            );
            let ghost begun = heading@;
            let text = heading.concat(describe_io(&cause).as_str());
            assert(text@.subrange(0, begun.len() as int) =~= begun);
            return Err(TemplateError::InvalidArgument(text));
        },
    };
    match registry.register(name.as_str(), text.as_str()) {
        Ok(after) => Ok((after, name)),
        Err(e) => Err(e),
    }
}

} // verus!
