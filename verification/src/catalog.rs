//! The Windows applications WireBox knows how to run. Pure data: no
//! filesystem or Wine logic lives here, that is `library`'s job.
use vstd::prelude::*;

use crate::text::{chars_equal, chars_of};

verus! {

/// A supported application.
#[derive(Debug, Clone, Copy, PartialEq, Eq, Hash, Structural)]
pub enum Application {
    Tonex,
    Amplitube5,
}

/// Every application, in catalog order.
pub open spec fn all_applications() -> Seq<Application> {
    seq![Application::Tonex, Application::Amplitube5]
}

impl Application {
    /// Every application, in catalog order.
    pub const ALL: [Application; 2] = [Application::Tonex, Application::Amplitube5];

    /// The human-readable name.
    pub open spec fn spec_name(self) -> Seq<char> {
        match self {
            Application::Tonex => "TONEX"@,
            Application::Amplitube5 => "AmpliTube 5"@,
        }
    }

    /// The filesystem-safe identifier, also used as the CLI argument.
    pub open spec fn spec_slug(self) -> Seq<char> {
        match self {
            Application::Tonex => "tonex"@,
            Application::Amplitube5 => "amplitube5"@,
        }
    }

    /// The file names that identify an installed copy.
    pub open spec fn spec_executable_names(self) -> Seq<Seq<char>> {
        match self {
            Application::Tonex => seq!["TONEX.exe"@, "TONEXApp.exe"@],
            Application::Amplitube5 => seq!["AmpliTube 5.exe"@, "AmpliTube.exe"@, "AmpliTube5.exe"@],
        }
    }

    /// Every application, in catalog order.
    pub fn all() -> (r: Vec<Application>)
        ensures
            r@ == all_applications(),
    {
        let mut r: Vec<Application> = Vec::new();
        r.push(Application::Tonex);
        r.push(Application::Amplitube5);
        assert(r@ =~= all_applications());
        r
    }

    /// Human-readable name for UI/log output.
    pub fn name(&self) -> (r: &'static str)
        ensures
            r@ == self.spec_name(),
    {
        match self {
            Application::Tonex => "TONEX",
            Application::Amplitube5 => "AmpliTube 5",
        }
    }

    /// Filesystem-safe identifier, also used as the CLI argument.
    pub fn slug(&self) -> (r: &'static str)
        ensures
            r@ == self.spec_slug(),
    {
        match self {
            Application::Tonex => "tonex",
            Application::Amplitube5 => "amplitube5",
        }
    }

    /// Filenames WireBox looks for once an install finishes. Matched
    /// case-insensitively, since Wine/NTFS-style installs are inconsistent
    /// about casing.
    pub fn executable_names(&self) -> (r: &'static [&'static str])
        ensures
            r@.map_values(|s: &str| s@) == self.spec_executable_names(),
    {
        match self {
            Application::Tonex => {
                let r: &'static [&'static str] = &["TONEX.exe", "TONEXApp.exe"];
                assert(r@.map_values(|s: &str| s@) =~= self.spec_executable_names());
                r
            },
            Application::Amplitube5 => {
                let r: &'static [&'static str] = &["AmpliTube 5.exe", "AmpliTube.exe", "AmpliTube5.exe"];
                assert(r@.map_values(|s: &str| s@) =~= self.spec_executable_names());
                r
            },
        }
    }

    /// The application whose slug is `slug`, if any.
    pub fn from_slug(slug: &str) -> (r: Option<Application>)
        ensures
            r matches Some(a) ==> a.spec_slug() == slug@,
            r is None ==> forall|a: Application| a.spec_slug() != slug@,
    {
        let given = chars_of(slug);
        let all = Application::all();
        let n = all.len();
        for i in 0..n
            invariant
                n == all@.len(),
                all@ == all_applications(),
                given@ == slug@,
                forall|k: int| 0 <= k < i ==> (#[trigger] all@[k]).spec_slug() != slug@,
        {
            let app = all[i];
            let candidate = chars_of(app.slug());
            if chars_equal(&given, &candidate) {
                return Some(app);
            }
        }
        assert forall|a: Application| a.spec_slug() != slug@ by {
            match a {
                Application::Tonex => assert(all@[0] == a),
                Application::Amplitube5 => assert(all@[1] == a),
            }
        }
        None
    }
}

/// The application named by an optional command-line argument.
pub fn parse_application(arg: Option<&String>) -> (r: Option<Application>)
    ensures
        arg is None ==> r is None,
        arg matches Some(a) ==> (r matches Some(x) ==> x.spec_slug() == a@),
        arg matches Some(a) ==> (r is None ==> forall|x: Application| x.spec_slug() != a@),
{
    match arg {
        Some(a) => Application::from_slug(a.as_str()),
        None => None,
    }
}

/// No two applications share a slug.
pub proof fn slugs_are_distinct(a: Application, b: Application)
    ensures
        a.spec_slug() == b.spec_slug() ==> a == b,
{
    reveal_strlit("tonex");
    reveal_strlit("amplitube5");
    if a != b {
        assert(a.spec_slug().len() != b.spec_slug().len());
    }
}

/// Looking up an application by its own slug gives that application back:
/// whatever `from_slug` returns for `a`'s slug is `Some(a)`.
pub proof fn from_slug_round_trip(a: Application, r: Option<Application>)
    requires
        r matches Some(b) ==> b.spec_slug() == a.spec_slug(),
        r is None ==> forall|b: Application| b.spec_slug() != a.spec_slug(),
    ensures
        r == Some(a),
{
    if let Some(b) = r {
        slugs_are_distinct(a, b);
    } else {
        let b = a;
        assert(b.spec_slug() != a.spec_slug());
    }
}

/// The catalog lists every application exactly once.
pub proof fn catalog_lists_each_application_once(a: Application)
    ensures
        all_applications().contains(a),
        forall|i: int, j: int|
            0 <= i < j < all_applications().len() ==> all_applications()[i]
                != all_applications()[j],
{
    match a {
        Application::Tonex => assert(all_applications()[0] == a),
        Application::Amplitube5 => assert(all_applications()[1] == a),
    }
}

} // verus!
