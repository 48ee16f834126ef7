//! Opening the selected modules in the IDE: the settings file to write, and
//! what to clear away first.
use crate::error::{Error, Result};
use crate::path::{path_views, DirPath, PathView};
use crate::projects::{default_settings_path, Projects};
use crate::settings::{entries_of, settings_text};
use vstd::prelude::*;

verus! {

/// What the IDE and earlier builds left in the root: the directory of the
/// IDE's settings, its module file, and the build directory.
pub open spec fn leftovers(root: PathView) -> Seq<PathView> {
    seq![
        PathView { absolute: root.absolute, segments: root.segments.push(".idea"@) },
        PathView { absolute: root.absolute, segments: root.segments.push("root-project.iml"@) },
        PathView { absolute: root.absolute, segments: root.segments.push("build"@) },
    ]
}

/// What is to be done to open the selected modules.
#[derive(Debug)]
pub struct OpenPlan {
    /// The settings file that the IDE opens.
    pub settings_file: DirPath,
    /// The text to write to it.
    pub settings: String,
    /// What is to be removed once the file is written.
    pub remove: Vec<DirPath>,
}

impl Projects {
    /// Plans the opening of the selected modules: the settings file of the IDE
    /// is written anew, and with `clean` what the IDE and earlier builds left
    /// behind is removed.
    pub fn open(&self, clean: bool, prologue: Option<&str>) -> (plan: OpenPlan)
        ensures
            plan.settings_file@ == default_settings_path(self@),
            plan.settings@ == settings_text(
                match prologue {
                    Some(t) => Some(t@),
                    None => None,
                },
                entries_of(self@.projects, self@.root),
            ),
            path_views(plan.remove@) == if clean {
                leftovers(self@.root)
            } else {
                Seq::empty()
            },
    {
        let (settings_file, settings) = self.add_to_default_settings_file(prologue);
        let mut remove: Vec<DirPath> = Vec::new();
        if clean {
            let root = self.root_project();
            remove.push(root.child(".idea"));
            remove.push(root.child("root-project.iml"));
            remove.push(root.child("build"));
        }
        OpenPlan { settings_file, settings, remove }
    }
}

/// What opening comes to once the leftovers were dealt with: an error if one
/// of them could not be removed.
pub fn open_result(removal_failed: bool) -> (r: Result<()>)
    ensures
        r is Ok <==> !removal_failed,
        r is Err ==> r->Err_0@.description == "Can't clean the cache"@ && r->Err_0@.cause is None,
{
    if removal_failed {
        Err(Error::from_str("Can't clean the cache"))
    } else {
        Ok(())
    }
}

} // verus!
