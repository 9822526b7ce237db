//! Configuration: the editor and commit types a project uses, and the
//! runtime flags of one invocation.

use vstd::prelude::*;

use crate::errors::{ConfigError, RonaError};

verus! {

/// The commit types offered when no configuration names any.
pub open spec fn default_commit_types() -> Seq<Seq<char>> {
    seq!["feat"@, "fix"@, "docs"@, "test"@, "chore"@]
}

/// Settings a project or user configuration file may hold; an absent key is `None`.
#[derive(Debug, Clone)]
pub struct ProjectConfig {
    /// Editor command used for commit messages.
    pub editor: Option<String>,
    /// Commit types offered for this project.
    pub commit_types: Option<Vec<String>>,
}

impl Default for ProjectConfig {
    fn default() -> (r: Self)
        ensures
            r.editor matches Some(e) && e@ == "nano"@,
            r.commit_types matches Some(v) && v.deep_view() == default_commit_types(),
    {
        let types = vec![
            String::from_str("feat"),
            String::from_str("fix"),
            String::from_str("docs"),
            String::from_str("test"),
            String::from_str("chore"),
        ];
        assert(types.deep_view() =~= default_commit_types());
        ProjectConfig { editor: Some(String::from_str("nano")), commit_types: Some(types) }
    }
}

impl ProjectConfig {
    /// This configuration overlaid by a later source: every key the later
    /// source sets wins, every key it leaves out is kept.
    pub fn merged(self, later: ProjectConfig) -> (r: ProjectConfig)
        ensures
            r.editor == (if later.editor is Some {
                later.editor
            } else {
                self.editor
            }),
            r.commit_types == (if later.commit_types is Some {
                later.commit_types
            } else {
                self.commit_types
            }),
    {
        let editor = match later.editor {
            Some(e) => Some(e),
            None => self.editor,
        };
        let commit_types = match later.commit_types {
            Some(t) => Some(t),
            None => self.commit_types,
        };
        ProjectConfig { editor, commit_types }
    }
}

/// `p` appended to `base` as `PathBuf::join` does for `/`-separated text: an
/// absolute `p` replaces `base`, and one `/` separates the two otherwise.
pub open spec fn path_join(base: Seq<char>, p: Seq<char>) -> Seq<char> {
    if p.len() > 0 && p[0] == '/' {
        p
    } else if base.len() == 0 {
        p
    } else if base.last() == '/' {
        base + p
    } else {
        base + "/"@ + p
    }
}

fn join_path(base: &str, p: &str) -> (r: String)
    ensures
        r@ == path_join(base@, p@),
{
    let pv = crate::text::chars_of(p);
    if pv.len() > 0 && pv[0] == '/' {
        return String::from_str(p);
    }
    let bv = crate::text::chars_of(base);
    if bv.len() == 0 {
        return String::from_str(p);
    }
    let mut s = String::from_str(base);
    if bv[bv.len() - 1] != '/' {
        s.append("/");
    }
    s.append(p);
    s
}

/// The configuration of one invocation: where configuration files live, the
/// runtime flags, and the project settings.
pub struct Config {
    root: String,
    verbose: bool,
    dry_run: bool,
    project_config: ProjectConfig,
}

impl Config {
    /// The root directory of the configuration files.
    pub closed spec fn root_view(&self) -> Seq<char> {
        self.root@
    }

    /// The project settings.
    pub closed spec fn settings(&self) -> ProjectConfig {
        self.project_config
    }

    /// A configuration rooted at `root` with the loaded project settings and
    /// both flags off.
    pub fn new(root: String, project_config: ProjectConfig) -> (r: Config)
        ensures
            r.root_view() == root@,
            !r.is_verbose(),
            !r.is_dry_run(),
            r.settings() == project_config,
    {
        Config { root, verbose: false, dry_run: false, project_config }
    }

    /// A configuration rooted at `root`; the default project settings stand in
    /// when none could be loaded.
    pub fn with_root(root: String, loaded: Option<ProjectConfig>) -> (r: Config)
        ensures
            r.root_view() == root@,
            !r.is_verbose(),
            !r.is_dry_run(),
            loaded matches Some(p) ==> r.settings() == p,
            loaded is None ==> (r.settings().editor matches Some(e) && e@ == "nano"@),
            loaded is None ==> (r.settings().commit_types matches Some(v) && v.deep_view()
                == default_commit_types()),
    {
        let project_config = match loaded {
            Some(p) => p,
            None => ProjectConfig::default(),
        };
        Config { root, verbose: false, dry_run: false, project_config }
    }

    /// Whether detailed output is on.
    #[verifier::when_used_as_spec(spec_is_verbose)]
    pub fn is_verbose(&self) -> (r: bool)
        ensures
            r == self.spec_is_verbose(),
    {
        self.verbose
    }

    pub closed spec fn spec_is_verbose(&self) -> bool {
        self.verbose
    }

    /// Whether preview mode is on.
    #[verifier::when_used_as_spec(spec_is_dry_run)]
    pub fn is_dry_run(&self) -> (r: bool)
        ensures
            r == self.spec_is_dry_run(),
    {
        self.dry_run
    }

    pub closed spec fn spec_is_dry_run(&self) -> bool {
        self.dry_run
    }

    /// The project settings.
    pub fn project_config(&self) -> (r: &ProjectConfig)
        ensures
            *r == self.settings(),
    {
        &self.project_config
    }

    /// Turns detailed output on or off.
    pub fn set_verbose(&mut self, verbose: bool)
        ensures
            final(self).is_verbose() == verbose,
            final(self).is_dry_run() == old(self).is_dry_run(),
            final(self).root_view() == old(self).root_view(),
            final(self).settings() == old(self).settings(),
    {
        self.verbose = verbose;
    }

    /// Turns preview mode on or off.
    pub fn set_dry_run(&mut self, dry_run: bool)
        ensures
            final(self).is_dry_run() == dry_run,
            final(self).is_verbose() == old(self).is_verbose(),
            final(self).root_view() == old(self).root_view(),
            final(self).settings() == old(self).settings(),
    {
        self.dry_run = dry_run;
    }

    /// The configured editor; fails with `InvalidConfig` when none is set.
    pub fn get_editor(&self) -> (r: Result<String, RonaError>)
        ensures
            self.settings().editor matches Some(e) ==> (r matches Ok(s) && s@ == e@),
            self.settings().editor is None ==> (r matches Err(RonaError::Config(
                ConfigError::InvalidConfig,
            ))),
    {
        match &self.project_config.editor {
            Some(e) => Ok(e.clone()),
            None => Err(RonaError::Config(ConfigError::InvalidConfig)),
        }
    }

    /// `<root>/.config/rona`.
    pub fn get_config_folder_path(&self) -> (r: Result<String, RonaError>)
        ensures
            r matches Ok(p) && p@ == path_join(path_join(self.root_view(), ".config"@), "rona"@),
    {
        let dot_config = join_path(self.root.as_str(), ".config");
        Ok(join_path(dot_config.as_str(), "rona"))
    }

    /// `<root>/.config/rona/config.toml`.
    pub fn get_config_file_path(&self) -> (r: Result<String, RonaError>)
        ensures
            r matches Ok(p) && p@ == path_join(
                path_join(path_join(self.root_view(), ".config"@), "rona"@),
                "config.toml"@,
            ),
    {
        let folder = self.get_config_folder_path()?;
        Ok(join_path(folder.as_str(), "config.toml"))
    }
}

} // verus!
