//! What to show for the dependency under a cursor.

use crate::text::ends_with;
use crate::version::{PackageVersion, PackageVersionView};
use vstd::prelude::*;

verus! {

/// A document is a manifest when its path ends in `package.json`.
pub open spec fn is_manifest(path: Seq<char>) -> bool {
    "package.json"@.is_suffix_of(path)
}

/// Whether the document at `path` is a manifest.
pub fn is_manifest_path(path: &str) -> (r: bool)
    ensures
        r == is_manifest(path@),
{
    ends_with(path, "package.json")
}

/// The link to a homepage, in Markdown; nothing where there is no homepage.
pub open spec fn homepage_link(homepage: Option<Seq<char>>) -> Seq<char> {
    match homepage {
        Some(h) => "["@ + h + "]("@ + h + ")"@,
        None => Seq::empty(),
    }
}

/// The Markdown shown for a package: its name in bold, the description of
/// its latest version, that version with the time since it was published,
/// and a link to its homepage where it has one.
pub open spec fn hover_text(
    package_name: Seq<char>,
    latest: PackageVersionView,
    published: Seq<char>,
) -> Seq<char> {
    "**"@ + package_name + "**\n\n"@ + latest.description + "\n\nLatest version: "@
        + latest.version + " (published "@ + published + ")\n\n"@ + homepage_link(latest.homepage)
}

/// The Markdown to show for a package. `published` says how long ago the
/// latest version was published, in words.
pub fn hover_markdown(package_name: &str, latest: &PackageVersion, published: &str) -> (r: String)
    ensures
        r@ == hover_text(package_name@, latest@, published@),
{
    let text = "**".to_owned().concat(package_name).concat("**\n\n").concat(
        latest.description.as_str(),
    ).concat("\n\nLatest version: ").concat(latest.version.as_str()).concat(" (published ").concat(
        published,
    ).concat(")\n\n");
    match &latest.homepage {
        Some(homepage) => {
            let link = "[".to_owned().concat(homepage.as_str()).concat("](").concat(
                homepage.as_str(),
            ).concat(")");
            let whole = text.concat(link.as_str());
            assert(whole@ =~= hover_text(package_name@, latest@, published@));
            whole
        },
        None => {
            assert(text@ =~= hover_text(package_name@, latest@, published@));
            text
        },
    }
}

} // verus!
