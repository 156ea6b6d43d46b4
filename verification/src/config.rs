//! The settings of a site, put together from a project, one of its
//! profiles, and a theme.

use vstd::prelude::*;
use vstd::string::StringExecFns;
use crate::text::{same_text, texts};
use crate::url::{UrlBuf, UrlError, below, join_text, joined};

verus! {

/// The name of the file that describes a project.
pub open spec fn project_file_name() -> Seq<char> {
    "futhorc.yaml"@
}

/// The number of posts on an index page where a profile names none.
pub const DEFAULT_PAGE_SIZE: usize = 10;

/// An author.
#[derive(Debug)]
pub struct Author {
    /// The author's name.
    pub name: String,
    /// The author's e-mail address.
    pub email: Option<String>,
}

/// One way to build a project: where the site will live, and what it is called.
#[derive(Debug)]
pub struct Profile {
    pub name: String,
    pub site_root: UrlBuf,
    pub home_page: String,
    pub author: Option<Author>,
    pub title: String,
    pub index_page_size: usize,
}

/// A project: its profiles, and the name of the one to use where none is asked for.
#[derive(Debug)]
pub struct Project {
    pub profiles: Vec<Profile>,
    pub default: String,
}

/// A theme: the files that make up each of the two templates, as paths
/// relative to the directory of the theme.
#[derive(Debug)]
pub struct Theme {
    pub index_template: Vec<String>,
    pub posts_template: Vec<String>,
}

/// Why the settings of a site could not be put together.
#[derive(Debug)]
pub enum Error {
    /// No directory that was searched holds a project file; the last
    /// directory searched is attached.
    MissingProjectFile(String),
    /// The project has no profile of the name that is attached.
    UnknownProfile(String),
    /// An address of the site cannot be made from the profile.
    UrlParse(UrlError),
}

impl Error {
    /// What the error says.
    pub open spec fn message_text(self) -> Seq<char> {
        match self {
            Error::MissingProjectFile(directory) =>
                "Could not find `futhorc.yaml` in any parent directory of '"@ + directory@ + "'"@,
            Error::UnknownProfile(name) => "Could not find profile '"@ + name@
                + "' in `futhorc.yaml`"@,
            Error::UrlParse(e) => e.message_text(),
        }
    }

    /// What the error says.
    pub fn message(&self) -> (out: String)
        ensures
            out@ == self.message_text(),
    {
        match self {
            Error::MissingProjectFile(directory) => {
                let mut out = "Could not find `futhorc.yaml` in any parent directory of '".to_owned();
                out.append(directory.as_str());
                out.append("'");
                out
            },
            Error::UnknownProfile(name) => {
                let mut out = "Could not find profile '".to_owned();
                out.append(name.as_str());
                out.append("' in `futhorc.yaml`");
                out
            },
            Error::UrlParse(e) => e.message(),
        }
    }
}

/// The settings of a site.
#[derive(Debug)]
pub struct Config {
    /// The title of the site.
    pub title: String,
    /// The author of the site.
    pub author: Option<Author>,
    /// The directory that the site is written to.
    pub root_output_directory: String,
    /// The directory that holds the sources of the posts.
    pub posts_source_directory: String,
    /// The address of the home page.
    pub home_page: UrlBuf,
    /// The address below which the index pages live.
    pub index_url: UrlBuf,
    /// The files that make up the template of the index pages.
    pub index_template: Vec<String>,
    /// The directory that the index pages are written to.
    pub index_output_directory: String,
    /// The number of posts per index page.
    pub index_page_size: usize,
    /// The address below which the pages of the posts live.
    pub posts_url: UrlBuf,
    /// The files that make up the template of the pages of the posts.
    pub posts_template: Vec<String>,
    /// The directory that the pages of the posts are written to.
    pub posts_output_directory: String,
    /// The address below which the static files live.
    pub static_url: UrlBuf,
    /// The directory that holds the static files of the theme.
    pub static_source_directory: String,
    /// The directory that the static files are copied to.
    pub static_output_directory: String,
    /// The address of the feed.
    pub atom_url: UrlBuf,
    /// The file that the feed is written to.
    pub atom_output_path: String,
}

/// Each of `names` below `directory`.
pub open spec fn paths_below(directory: Seq<char>, names: Seq<String>) -> Seq<Seq<char>> {
    Seq::new(names.len(), |i: int| below(directory, names[i]@))
}

/// Each of `names` below `directory`.
fn all_below(directory: &str, names: &Vec<String>) -> (out: Vec<String>)
    ensures
        texts(out@) == paths_below(directory@, names@),
{
    let mut out: Vec<String> = Vec::new();
    let mut i: usize = 0;
    while i < names.len()
        invariant
            i <= names@.len(),
            out@.len() == i,
            forall|k: int| 0 <= k < i ==> (#[trigger] out@[k])@ == below(directory@, names@[k]@),
        decreases names@.len() - i,
    {
        out.push(join_text(directory, names[i].as_str()));
        i += 1;
    }
    assert(texts(out@) =~= paths_below(directory@, names@));
    out
}

/// The first directory of `directories` that holds a project file,
/// where `present` says of each directory whether it does; a directory
/// that `present` says nothing of holds none.
pub open spec fn is_first_present(directories: Seq<String>, present: Seq<bool>, at: int) -> bool {
    &&& 0 <= at < directories.len()
    &&& at < present.len()
    &&& present[at]
    &&& forall|k: int| 0 <= k < at ==> !#[trigger] present[k]
}

/// No directory of `directories` holds a project file.
pub open spec fn none_present(directories: Seq<String>, present: Seq<bool>) -> bool {
    forall|k: int| 0 <= k < directories.len() && k < present.len() ==> !#[trigger] present[k]
}

/// The profile of `profiles` that is called `name`: the first of that name.
pub open spec fn is_profile_at(profiles: Seq<Profile>, name: Seq<char>, at: int) -> bool {
    &&& 0 <= at < profiles.len()
    &&& profiles[at].name@ == name
    &&& forall|k: int| 0 <= k < at ==> (#[trigger] profiles[k]).name@ != name
}

/// The name of the profile that is asked for: `profile`, or the
/// project's default where none is named.
pub open spec fn requested_profile(project: Project, profile: Option<&str>) -> Seq<char> {
    match profile {
        Some(name) => name@,
        None => project.default@,
    }
}

impl Project {
    /// Picks the profile called `profile`, or the default profile of the
    /// project where `profile` names none.
    pub fn profile(self, profile: Option<&str>) -> (out: Result<Profile, Error>)
        ensures
            match out {
                Ok(found) => exists|at: int|
                    #[trigger] is_profile_at(
                        self.profiles@,
                        requested_profile(self, profile),
                        at,
                    ) && self.profiles@[at] == found,
                Err(Error::UnknownProfile(name)) => name@ == requested_profile(self, profile)
                    && forall|k: int|
                    0 <= k < self.profiles@.len() ==> (#[trigger] self.profiles@[k]).name@
                        != name@,
                Err(_) => false,
            },
    {
        let ghost all = self.profiles@;
        let ghost wanted = requested_profile(self, profile);
        let requested: String = match profile {
            Some(name) => name.to_owned(),
            None => self.default,
        };
        let mut profiles = self.profiles;
        let mut at: usize = 0;
        while at < profiles.len()
            invariant
                profiles@ == all,
                all == self.profiles@,
                wanted == requested_profile(self, profile),
                requested@ == wanted,
                at <= all.len(),
                forall|k: int| 0 <= k < at ==> (#[trigger] all[k]).name@ != requested@,
            decreases all.len() - at,
        {
            if same_text(profiles[at].name.as_str(), requested.as_str()) {
                let found = profiles.swap_remove(at);
                assert(is_profile_at(all, wanted, at as int));
                assert(all[at as int] == found);
                return Ok(found);
            }
            at += 1;
        }
        Err(Error::UnknownProfile(requested))
    }
}

impl Config {
    /// `self` is the configuration that `profile` and `theme` give for
    /// the project in `project_root`, written to `output_directory`.
    pub open spec fn is_configuration(
        &self,
        profile: Profile,
        theme: Theme,
        project_root: Seq<char>,
        output_directory: Seq<char>,
    ) -> bool {
        let theme_directory = below(project_root, "theme"@);
        &&& self.title@ == profile.title@
        &&& self.author == profile.author
        &&& self.root_output_directory@ == output_directory
        &&& self.posts_source_directory@ == below(project_root, "posts"@)
        &&& joined(profile.site_root@, profile.home_page@) == Ok::<Seq<char>, UrlError>(
            self.home_page@,
        )
        &&& joined(profile.site_root@, "pages/"@) == Ok::<Seq<char>, UrlError>(self.index_url@)
        &&& joined(profile.site_root@, "posts/"@) == Ok::<Seq<char>, UrlError>(self.posts_url@)
        &&& joined(profile.site_root@, "static/"@) == Ok::<Seq<char>, UrlError>(self.static_url@)
        &&& joined(profile.site_root@, "feed.atom"@) == Ok::<Seq<char>, UrlError>(self.atom_url@)
        &&& texts(self.index_template@) == paths_below(theme_directory, theme.index_template@)
        &&& texts(self.posts_template@) == paths_below(theme_directory, theme.posts_template@)
        &&& self.index_output_directory@ == below(output_directory, "pages"@)
        &&& self.posts_output_directory@ == below(output_directory, "posts"@)
        &&& self.static_source_directory@ == below(theme_directory, "static"@)
        &&& self.static_output_directory@ == below(output_directory, "static"@)
        &&& self.index_page_size == profile.index_page_size
        &&& self.atom_output_path@ == below(output_directory, "feed.atom"@)
    }

    /// The first of the five addresses of a site that cannot be made
    /// from the root `site_root`, if there is one: why it cannot.
    pub open spec fn address_error(site_root: Seq<char>, home_page: Seq<char>) -> Option<UrlError> {
        if let Err(e) = joined(site_root, home_page) {
            Some(e)
        } else if let Err(e) = joined(site_root, "pages/"@) {
            Some(e)
        } else if let Err(e) = joined(site_root, "posts/"@) {
            Some(e)
        } else if let Err(e) = joined(site_root, "static/"@) {
            Some(e)
        } else if let Err(e) = joined(site_root, "feed.atom"@) {
            Some(e)
        } else {
            None
        }
    }

    /// Searches `directories`, a directory and the directories above it
    /// from the nearest to the farthest, for the project file. `present`
    /// says of each directory whether it holds one. The result is the
    /// path of the project file in the first directory that holds one.
    pub fn from_directory(directories: &[String], present: &[bool]) -> (out: Result<String, Error>)
        ensures
            match out {
                Ok(path) => exists|at: int|
                    is_first_present(directories@, present@, at) && path@ == below(
                        (#[trigger] directories@[at])@,
                        project_file_name(),
                    ),
                Err(Error::MissingProjectFile(last)) => none_present(directories@, present@) && (
                if directories@.len() == 0 {
                    last@ == Seq::<char>::empty()
                } else {
                    last@ == directories@.last()@
                }),
                Err(_) => false,
            },
    {
        let mut at: usize = 0;
        while at < directories.len()
            invariant
                at <= directories@.len(),
                forall|k: int| 0 <= k < at && k < present@.len() ==> !#[trigger] present@[k],
            decreases directories@.len() - at,
        {
            if at < present.len() && present[at] {
                let path = join_text(directories[at].as_str(), "futhorc.yaml");
                assert(is_first_present(directories@, present@, at as int));
                return Ok(path);
            }
            at += 1;
        }
        if directories.len() == 0 {
            Err(Error::MissingProjectFile(String::new()))
        } else {
            Err(Error::MissingProjectFile(directories[directories.len() - 1].clone()))
        }
    }

    /// Puts the settings of a site together: the addresses of the site
    /// come from the root address of `profile`, the templates and the
    /// static files from the theme in `project_root`, and everything is
    /// written below `output_directory`.
    pub fn from_project_file(
        profile: Profile,
        theme: Theme,
        project_root: &str,
        output_directory: &str,
    ) -> (out: Result<Config, Error>)
        ensures
            match out {
                Ok(config) => config.is_configuration(
                    profile,
                    theme,
                    project_root@,
                    output_directory@,
                ),
                Err(Error::UrlParse(e)) => Self::address_error(
                    profile.site_root@,
                    profile.home_page@,
                ) == Some(e),
                Err(_) => false,
            },
    {
        let theme_directory = join_text(project_root, "theme");
        let home_page = match profile.site_root.resolve(profile.home_page.as_str()) {
            Ok(url) => url,
            Err(e) => {
                return Err(Error::UrlParse(e));
            },
        };
        let index_url = match profile.site_root.resolve("pages/") {
            Ok(url) => url,
            Err(e) => {
                return Err(Error::UrlParse(e));
            },
        };
        let posts_url = match profile.site_root.resolve("posts/") {
            Ok(url) => url,
            Err(e) => {
                return Err(Error::UrlParse(e));
            },
        };
        let static_url = match profile.site_root.resolve("static/") {
            Ok(url) => url,
            Err(e) => {
                return Err(Error::UrlParse(e));
            },
        };
        let atom_url = match profile.site_root.resolve("feed.atom") {
            Ok(url) => url,
            Err(e) => {
                return Err(Error::UrlParse(e));
            },
        };
        Ok(
            Config {
                title: profile.title,
                author: profile.author,
                root_output_directory: output_directory.to_owned(),
                posts_source_directory: join_text(project_root, "posts"),
                home_page,
                index_url,
                index_template: all_below(theme_directory.as_str(), &theme.index_template),
                index_output_directory: join_text(output_directory, "pages"),
                index_page_size: profile.index_page_size,
                posts_url,
                posts_template: all_below(theme_directory.as_str(), &theme.posts_template),
                posts_output_directory: join_text(output_directory, "posts"),
                static_url,
                static_source_directory: join_text(theme_directory.as_str(), "static"),
                static_output_directory: join_text(output_directory, "static"),
                atom_url,
                atom_output_path: join_text(output_directory, "feed.atom"),
            },
        )
    }
}

} // verus!
