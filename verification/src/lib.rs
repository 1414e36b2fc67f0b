pub mod auto_filters;
pub mod fs_model;
pub mod laws;
pub mod user_config;
pub mod my_utils;
pub mod orchestrator;
pub mod symbolic_link;
pub mod walker;

use vstd::prelude::*;

verus! {

/// The operation the executor is asked to perform on each link descriptor.
#[derive(Clone, Copy, PartialEq, Eq, Structural, Debug)]
pub enum Action {
    Make,
    Delete,
    Remake,
}

impl Action {
    /// Short name of the action, as it appears in reports.
    pub fn to_str(&self) -> (r: &'static str)
        ensures
            self is Make ==> r@ == "make"@,
            self is Delete ==> r@ == "delete"@,
            self is Remake ==> r@ == "remake"@,
    {
        match self {
            Action::Make => "make",
            Action::Delete => "delete",
            Action::Remake => "remake",
        }
    }
}

/// The resolved run context: everything one reconciliation run needs,
/// fixed before any work starts and never mutated afterwards.
pub struct MainApp {
    pub under_dir: String,
    pub upper_dir: String,
    pub target_dirs: Vec<String>,
    pub verbose_num: u64,
    pub dry_run: bool,
    pub action: Action,
    pub git_url: Option<String>,
}

/// Mathematical image of a [`MainApp`].
pub struct AppModel {
    pub under_dir: Seq<char>,
    pub upper_dir: Seq<char>,
    pub target_dirs: Seq<Seq<char>>,
    pub verbose_num: u64,
    pub dry_run: bool,
    pub action: Action,
    pub git_url: Option<Seq<char>>,
}

impl View for MainApp {
    type V = AppModel;

    open spec fn view(&self) -> AppModel {
        AppModel {
            under_dir: self.under_dir@,
            upper_dir: self.upper_dir@,
            target_dirs: self.target_dirs@.map_values(|p: String| p@),
            verbose_num: self.verbose_num,
            dry_run: self.dry_run,
            action: self.action,
            git_url: match self.git_url {
                Some(ref g) => Some(g@),
                None => None,
            },
        }
    }
}

/// What the command line contributed, already reduced to plain values.
pub struct CliArgs {
    pub verbose_num: u64,
    pub dry_run: bool,
    pub target: Option<String>,
    pub upper: Option<String>,
    pub delete: bool,
    pub remake: bool,
    pub git_url: Option<String>,
}

/// Why no run context could be resolved.
#[derive(Clone, Copy, PartialEq, Eq, Structural, Debug)]
pub enum AppError {
    /// The configuration was rejected and the command line named no usable
    /// target either.
    ConfigAndCli,
    /// The configuration's upper directory does not exist.
    NoAutoUpper,
    /// No source for the upper directory at all.
    NothingGiven,
    /// No source for the under directory.
    NoUnder,
    /// No target on the command line and no configuration.
    NoConfigForAuto,
    /// The host name was needed and unavailable.
    NoHostname,
    /// Target selection failed.
    Filter(auto_filters::FilterError),
}

/// A path argument, quotes stripped, accepted only if it exists.
pub open spec fn checked_path(fs: &fs_model::FsState, v: Seq<char>) -> Option<Seq<char>> {
    if fs@.contains_key(my_utils::strip_quotes(v)) {
        Some(my_utils::strip_quotes(v))
    } else {
        None
    }
}

/// The target directory the command line named, if it resolves.
pub open spec fn spec_initial_target(fs: &fs_model::FsState, args: &CliArgs) -> Option<Seq<char>> {
    match args.target {
        Some(v) => checked_path(fs, v@),
        None => None,
    }
}

/// The upper directory the command line named, if it resolves.
pub open spec fn spec_init_upper(fs: &fs_model::FsState, args: &CliArgs) -> Option<Seq<char>> {
    match args.upper {
        Some(v) => checked_path(fs, v@),
        None => None,
    }
}

/// The git URL the command line named.
pub open spec fn spec_cli_git(args: &CliArgs) -> Option<Seq<char>> {
    match args.git_url {
        Some(g) => Some(g@),
        None => None,
    }
}

/// The action the command line selected: deleting wins over remaking,
/// making is the default.
pub open spec fn spec_action(args: &CliArgs) -> Action {
    if args.delete {
        Action::Delete
    } else if args.remake {
        Action::Remake
    } else {
        Action::Make
    }
}

/// The run context that the command line, the configuration and the
/// filesystem resolve to, or why none can be.  A target named on the
/// command line wins everywhere it applies; the configuration fills the
/// rest; target selection needs the host name.
pub open spec fn spec_resolve(
    fs: &fs_model::FsState,
    args: &CliArgs,
    config: &Result<user_config::Conf, user_config::ConfError>,
    hostname: Option<Seq<char>>,
) -> Result<AppModel, AppError> {
    let initial = spec_initial_target(fs, args);
    if config is Err && initial is None {
        Err(AppError::ConfigAndCli)
    } else {
        let conf_opt: Option<user_config::ConfModel> = match config {
            Ok(c) => Some(c@),
            Err(_) => None,
        };
        match spec_upper_dir(fs, args, conf_opt, initial) {
            Err(e) => Err(e),
            Ok(upper_dir) => match spec_under_dir(upper_dir, conf_opt, initial) {
                Err(e) => Err(e),
                Ok(under_dir) => match spec_target_dirs(fs, under_dir, conf_opt, initial, hostname) {
                    Err(e) => Err(e),
                    Ok(target_dirs) => Ok(
                        AppModel {
                            under_dir,
                            upper_dir,
                            target_dirs,
                            verbose_num: args.verbose_num,
                            dry_run: args.dry_run,
                            action: spec_action(args),
                            git_url: match conf_opt {
                                Some(c) => if c.git_url is Some {
                                    c.git_url
                                } else {
                                    spec_cli_git(args)
                                },
                                None => spec_cli_git(args),
                            },
                        },
                    ),
                },
            },
        }
    }
}

/// Where the upper directory comes from: the command-line target itself,
/// else the configuration (checked against the filesystem), else the
/// command-line upper directory.
pub open spec fn spec_upper_dir(
    fs: &fs_model::FsState,
    args: &CliArgs,
    conf_opt: Option<user_config::ConfModel>,
    initial: Option<Seq<char>>,
) -> Result<Seq<char>, AppError> {
    match initial {
        Some(ini) => Ok(ini),
        None => match conf_opt {
            Some(c) => match checked_path(fs, c.upper_dir) {
                Some(u) => Ok(u),
                None => Err(AppError::NoAutoUpper),
            },
            None => match spec_init_upper(fs, args) {
                Some(u) => Ok(u),
                None => Err(AppError::NothingGiven),
            },
        },
    }
}

/// Where the under directory comes from: the command-line target itself,
/// else the configuration's under directory below the upper directory.
pub open spec fn spec_under_dir(
    upper_dir: Seq<char>,
    conf_opt: Option<user_config::ConfModel>,
    initial: Option<Seq<char>>,
) -> Result<Seq<char>, AppError> {
    match initial {
        Some(ini) => Ok(ini),
        None => match conf_opt {
            Some(c) => Ok(my_utils::join_path(upper_dir, c.under_dir)),
            None => Err(AppError::NoUnder),
        },
    }
}

/// Where the target directories come from: the command-line target alone,
/// else the configuration's filter over the under tree's listing.
pub open spec fn spec_target_dirs(
    fs: &fs_model::FsState,
    under_dir: Seq<char>,
    conf_opt: Option<user_config::ConfModel>,
    initial: Option<Seq<char>>,
    hostname: Option<Seq<char>>,
) -> Result<Seq<Seq<char>>, AppError> {
    match initial {
        Some(ini) => Ok(seq![ini]),
        None => match conf_opt {
            Some(c) => match hostname {
                None => Err(AppError::NoHostname),
                Some(h) => if auto_filters::matching_targets(c.to_filter, h).len() != 1 {
                    Err(AppError::Filter(auto_filters::FilterError::HostMatch))
                } else {
                    match auto_filters::get_dirs_result(
                        fs_model::children_of(fs.key_seq(), under_dir),
                        auto_filters::matching_targets(c.to_filter, h)[0].file_patterns,
                    ) {
                        Ok(v) => Ok(v),
                        Err(e) => Err(AppError::Filter(e)),
                    }
                },
            },
            None => Err(AppError::NoConfigForAuto),
        },
    }
}

/// The line one verbosity step prints: the message alone at level one (and
/// only when there is one), message and detail at level two.
pub open spec fn spec_verbose_line(
    verbose_num: u64,
    message: Seq<char>,
    more: Option<Seq<char>>,
) -> Option<Seq<char>> {
    if verbose_num == 1 && message.len() > 0 {
        Some(message)
    } else if verbose_num == 2 {
        Some(
            message + match more {
                Some(m) => m,
                None => Seq::empty(),
            },
        )
    } else {
        None
    }
}

impl MainApp {
    /// Resolve the run context from the command line, the configuration,
    /// the recorded filesystem and the host name.  A rejected
    /// configuration is fatal only when the command line names no usable
    /// target.
    pub fn new(
        fs: &fs_model::FsState,
        args: CliArgs,
        config: Result<user_config::Conf, user_config::ConfError>,
        hostname: Option<&String>,
    ) -> (r: Result<MainApp, AppError>)
        requires
            (spec_initial_target(fs, &args) is None && config is Ok) ==> match config {
                Ok(c) => c.filter_type is Hostname,
                Err(_) => true,
            },
        ensures
            match spec_resolve(
                fs,
                &args,
                &config,
                match hostname {
                    Some(h) => Some(h@),
                    None => None,
                },
            ) {
                Ok(m) => (r matches Ok(a) && a@ == m),
                Err(e) => (r matches Err(re) && re == e),
            },
    {
        let verbose_num = args.verbose_num;
        let dry_run = args.dry_run;

        let initial_target_path: Option<String> = match &args.target {
            Some(val) => {
                let parts = vec![val.clone()];
                proof {
                    assert(parts@.map_values(|p: String| p@) =~= seq![val@]);
                }
                my_utils::make_then_check_path(fs, &parts)
            },
            None => None,
        };

        let config_opt: Option<user_config::Conf> = match config {
            Ok(conf) => Some(conf),
            Err(_) => {
                if initial_target_path.is_none() {
                    return Err(AppError::ConfigAndCli);
                }
                None
            },
        };

        let init_upper: Option<String> = match &args.upper {
            Some(val) => {
                let parts = vec![val.clone()];
                proof {
                    assert(parts@.map_values(|p: String| p@) =~= seq![val@]);
                }
                my_utils::make_then_check_path(fs, &parts)
            },
            None => None,
        };

        let action = if args.delete {
            Action::Delete
        } else if args.remake {
            Action::Remake
        } else {
            Action::Make
        };

        let upper_dir: String = if let Some(ini_up) = &initial_target_path {
            ini_up.clone()
        } else if let Some(conf) = &config_opt {
            let parts = vec![conf.upper_dir.clone()];
            proof {
                assert(parts@.map_values(|p: String| p@) =~= seq![conf.upper_dir@]);
            }
            match my_utils::make_then_check_path(fs, &parts) {
                Some(u) => u,
                None => {
                    return Err(AppError::NoAutoUpper);
                },
            }
        } else if let Some(upper) = init_upper {
            upper
        } else {
            return Err(AppError::NothingGiven);
        };

        let under_dir: String = if let Some(ini_path) = &initial_target_path {
            // the target named on the command line is its own under tree
            ini_path.clone()
        } else if let Some(conf) = &config_opt {
            my_utils::path_join(&upper_dir, &conf.under_dir)
        } else {
            return Err(AppError::NoUnder);
        };

        let target_dirs: Vec<String> = if let Some(ini_target) = &initial_target_path {
            let dirs = vec![ini_target.clone()];
            proof {
                assert(dirs@.map_values(|p: String| p@) =~= seq![ini_target@]);
            }
            dirs
        } else if let Some(conf) = &config_opt {
            let host = match hostname {
                Some(h) => h,
                None => {
                    return Err(AppError::NoHostname);
                },
            };
            match auto_filters::filter_target_dirs(fs, &under_dir, conf, host) {
                Ok(dirs) => dirs,
                Err(e) => {
                    return Err(AppError::Filter(e));
                },
            }
        } else {
            return Err(AppError::NoConfigForAuto);
        };

        let git_url: Option<String> = if let Some(conf) = &config_opt {
            match &conf.git_url {
                Some(u) => Some(u.clone()),
                None => args.git_url,
            }
        } else {
            args.git_url
        };

        Ok(MainApp { under_dir, upper_dir, target_dirs, verbose_num, dry_run, action, git_url })
    }

    /// The line this verbosity level asks to have printed, if any.
    pub fn verbose_ouput(&self, message: &str, more: Option<&str>) -> (r: Option<String>)
        ensures
            match spec_verbose_line(
                self.verbose_num,
                message@,
                match more {
                    Some(m) => Some(m@),
                    None => None,
                },
            ) {
                Some(line) => (r matches Some(s) && s@ == line),
                None => r is None,
            },
    {
        if self.verbose_num == 1 && !message.is_empty() {
            Some(message.to_owned())
        } else if self.verbose_num == 2 {
            let mut line = message.to_owned();
            match more {
                Some(m) => line.append(m),
                None => {
                    proof {
                        assert(line@ =~= message@ + Seq::<char>::empty());
                    }
                },
            }
            Some(line)
        } else {
            None
        }
    }
}

} // verus!
