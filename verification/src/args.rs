//! Command-line options and how saved settings change them.

use vstd::prelude::*;
use vstd::string::*;
use crate::text::str_eq;

verus! {

/// Subcommands of the program.
#[derive(Debug)]
pub enum Commands {
    /// Operations on the database of downloaded manga.
    Database {
        check: bool,
        update: bool,
        show: Option<Option<String>>,
        show_all: Option<Option<String>>,
        show_log: bool,
        show_settings: bool,
        backup_choose: bool,
    },
    /// Saved defaults.
    Settings {
        folder: Option<Option<String>>,
        stat: Option<Option<String>>,
        backup: Option<Option<String>>,
        music: Option<Option<String>>,
        clear: bool,
    },
    /// Management of the program itself.
    App {
        force_setup: bool,
        force_delete: bool,
        delete: bool,
        reset: bool,
        backup: bool,
        update: bool,
    },
    /// No subcommand.
    Default,
}

/// The options as the command-line parser delivers them.
#[derive(Debug)]
pub struct ParserArgs {
    pub url: String,
    pub info: String,
    pub lang: String,
    pub title: String,
    pub folder: String,
    pub volume: String,
    pub chapter: String,
    pub saver: bool,
    pub stat: bool,
    pub quiet: bool,
    pub max_consecutive: usize,
    pub force: bool,
    pub offset: String,
    pub database_offset: String,
    pub unsorted: bool,
    pub cwd: String,
    pub encode: String,
    pub log: bool,
    pub tutorial: bool,
    pub skip_tutorial: bool,
    pub search: String,
    pub music: Option<Option<String>>,
    pub web: bool,
    pub server: bool,
    pub gui: bool,
    pub debug: bool,
    pub debug_file: bool,
    pub dev: bool,
    pub subcommands: Option<Commands>,
}

/// The values that the rest of the program reads.
#[derive(Debug)]
pub struct Args {
    pub url: String,
    pub info: String,
    pub lang: String,
    pub title: String,
    pub folder: String,
    pub volume: String,
    pub chapter: String,
    pub saver: bool,
    pub stat: bool,
    pub quiet: bool,
    pub max_consecutive: usize,
    pub force: bool,
    pub offset: String,
    pub database_offset: String,
    pub unsorted: bool,
    pub cwd: String,
    pub encode: String,
    pub log: bool,
    pub check: bool,
    pub update: bool,
    pub tutorial: bool,
    pub skip_tutorial: bool,
    pub search: String,
    pub show: Option<Option<String>>,
    pub show_all: Option<Option<String>>,
    pub show_log: bool,
    pub show_settings: bool,
    pub web: bool,
    pub server: bool,
    pub gui: bool,
    pub debug: bool,
    pub debug_file: bool,
    pub backup: bool,
    pub dev: bool,
    pub music: Option<Option<String>>,
    pub subcommands: Option<Commands>,
}

/// A value for [`Args::change`].
#[derive(Debug)]
pub enum ArgValue {
    Bool(bool),
    Str(String),
}

/// Saved defaults read from the database.
#[derive(Debug)]
pub struct Settings {
    /// Folder for downloads.
    pub folder: String,
    /// Whether statistics are saved.
    pub stat: bool,
    /// Whether backups are made.
    pub backup: bool,
}

/// `args` after [`Args::change`] with `typ` and `to`.
pub open spec fn changed(args: Args, typ: Seq<char>, to: ArgValue) -> Args {
    match to {
        ArgValue::Str(value) => if typ == "folder"@ && args.folder@ == "."@ {
            Args { folder: value, ..args }
        } else {
            args
        },
        ArgValue::Bool(value) => if typ == "stat"@ {
            Args { stat: value, ..args }
        } else if typ == "backup"@ {
            Args { backup: value, ..args }
        } else {
            args
        },
    }
}

/// A copy of an optional optional string.
pub fn clone_opt_opt(x: &Option<Option<String>>) -> (r: Option<Option<String>>)
    ensures
        r == *x,
{
    match x {
        Some(Some(s)) => Some(Some(s.clone())),
        Some(None) => Some(None),
        None => None,
    }
}

/// A copy of a subcommand.
pub fn clone_commands(c: &Commands) -> (r: Commands)
    ensures
        r == *c,
{
    match c {
        Commands::Database {
            check,
            update,
            show,
            show_all,
            show_log,
            show_settings,
            backup_choose,
        } => Commands::Database {
            check: *check,
            update: *update,
            show: clone_opt_opt(show),
            show_all: clone_opt_opt(show_all),
            show_log: *show_log,
            show_settings: *show_settings,
            backup_choose: *backup_choose,
        },
        Commands::Settings { folder, stat, backup, music, clear } => Commands::Settings {
            folder: clone_opt_opt(folder),
            stat: clone_opt_opt(stat),
            backup: clone_opt_opt(backup),
            music: clone_opt_opt(music),
            clear: *clear,
        },
        Commands::App { force_setup, force_delete, delete, reset, backup, update } => Commands::App {
            force_setup: *force_setup,
            force_delete: *force_delete,
            delete: *delete,
            reset: *reset,
            backup: *backup,
            update: *update,
        },
        Commands::Default => Commands::Default,
    }
}

/// The `check` flag of a subcommand.
pub open spec fn sub_check(c: Commands) -> bool {
    match c {
        Commands::Database { check, .. } => check,
        _ => false,
    }
}

/// The `update` flag of the `database` subcommand.
pub open spec fn sub_update(c: Commands) -> bool {
    match c {
        Commands::Database { update, .. } => update,
        _ => false,
    }
}

/// The `show` option of the `database` subcommand.
pub open spec fn sub_show(c: Commands) -> Option<Option<String>> {
    match c {
        Commands::Database { show, .. } => show,
        _ => None,
    }
}

/// The `show_all` option of the `database` subcommand.
pub open spec fn sub_show_all(c: Commands) -> Option<Option<String>> {
    match c {
        Commands::Database { show_all, .. } => show_all,
        _ => None,
    }
}

/// The `show_log` flag of the `database` subcommand.
pub open spec fn sub_show_log(c: Commands) -> bool {
    match c {
        Commands::Database { show_log, .. } => show_log,
        _ => false,
    }
}

/// The `show_settings` flag of the `database` subcommand.
pub open spec fn sub_show_settings(c: Commands) -> bool {
    match c {
        Commands::Database { show_settings, .. } => show_settings,
        _ => false,
    }
}

/// The `backup` flag of the `app` subcommand.
pub open spec fn sub_backup(c: Commands) -> bool {
    match c {
        Commands::App { backup, .. } => backup,
        _ => false,
    }
}

/// The subcommand, `Default` when none was given.
pub open spec fn sub_or_default(s: Option<Commands>) -> Commands {
    match s {
        Some(c) => c,
        None => Commands::Default,
    }
}

/// `args` after applying saved settings.
pub open spec fn with_settings(args: Args, settings: Settings) -> Args {
    Args {
        folder: if args.folder@ == "."@ {
            settings.folder
        } else {
            args.folder
        },
        stat: settings.stat,
        backup: settings.backup,
        ..args
    }
}

/// The arguments built from the parsed command line.
pub open spec fn args_from_parsed(args: ParserArgs) -> Args {
    Args {
        url: args.url,
        info: args.info,
        lang: args.lang,
        title: args.title,
        folder: args.folder,
        volume: args.volume,
        chapter: args.chapter,
        saver: args.saver,
        stat: args.stat,
        quiet: args.quiet,
        max_consecutive: args.max_consecutive,
        force: args.force,
        offset: args.offset,
        database_offset: args.database_offset,
        unsorted: args.unsorted,
        cwd: args.cwd,
        encode: args.encode,
        log: args.log,
        check: sub_check(sub_or_default(args.subcommands)),
        update: sub_update(sub_or_default(args.subcommands)),
        tutorial: args.tutorial,
        skip_tutorial: args.skip_tutorial,
        search: args.search,
        show: sub_show(sub_or_default(args.subcommands)),
        show_all: sub_show_all(sub_or_default(args.subcommands)),
        show_log: sub_show_log(sub_or_default(args.subcommands)),
        show_settings: sub_show_settings(sub_or_default(args.subcommands)),
        web: args.web,
        server: args.server,
        gui: args.gui,
        debug: args.debug,
        debug_file: args.debug_file,
        backup: sub_backup(sub_or_default(args.subcommands)),
        dev: args.dev,
        music: args.music,
        subcommands: args.subcommands,
    }
}

/// Arguments for a download started from the graphical interface: the download options
/// given, everything else as in `base`, and no title search.
pub open spec fn args_for_download(
    base: Args,
    url: String,
    lang: String,
    title: String,
    folder: String,
    volume: String,
    chapter: String,
    saver: bool,
    stat: bool,
    max_consecutive: usize,
    force: bool,
    offset: String,
    database_offset: String,
) -> Args {
    Args {
        url,
        lang,
        title,
        folder,
        volume,
        chapter,
        saver,
        stat,
        max_consecutive,
        force,
        offset,
        database_offset,
        search: base.search,
        ..base
    }
}

impl Args {
    /// Changes one setting: `folder` only while it is still `.`, `stat` and `backup`
    /// always; any other combination leaves the arguments as they are.
    pub fn change(&mut self, typ: &str, to: ArgValue)
        ensures
            *final(self) == changed(*old(self), typ@, to),
    {
        match to {
            ArgValue::Str(value) => {
                if str_eq(typ, "folder") {
                    if !str_eq(self.folder.as_str(), ".") {
                        return;
                    }
                    self.folder = value;
                }
            },
            ArgValue::Bool(value) => {
                if str_eq(typ, "stat") {
                    self.stat = value;
                } else if str_eq(typ, "backup") {
                    self.backup = value;
                }
            },
        }
    }

    /// Applies saved settings: the folder (only while it is still `.`), the statistics
    /// flag and the backup flag.
    pub fn change_settings(&mut self, settings: Settings)
        ensures
            *final(self) == changed(
                changed(
                    changed(*old(self), "folder"@, ArgValue::Str(settings.folder)),
                    "stat"@,
                    ArgValue::Bool(settings.stat),
                ),
                "backup"@,
                ArgValue::Bool(settings.backup),
            ),
    {
        self.change("folder", ArgValue::Str(settings.folder));
        self.change("stat", ArgValue::Bool(settings.stat));
        self.change("backup", ArgValue::Bool(settings.backup));
    }

    /// Arguments for a download with the given options; the other values are copied from
    /// `base`, except the title search, which is empty.
    pub fn from(
        base: &Args,
        url: String,
        lang: String,
        title: String,
        folder: String,
        volume: String,
        chapter: String,
        saver: bool,
        stat: bool,
        max_consecutive: usize,
        force: bool,
        offset: String,
        database_offset: String,
    ) -> (r: Args)
        ensures
            r.search@ == Seq::<char>::empty(),
            r == (Args { search: r.search, ..args_for_download(*base, url, lang, title, folder, volume, chapter, saver, stat, max_consecutive, force, offset, database_offset) }),
    {
        Args {
            url,
            info: base.info.clone(),
            lang,
            title,
            folder,
            volume,
            chapter,
            saver,
            stat,
            quiet: base.quiet,
            max_consecutive,
            force,
            offset,
            database_offset,
            unsorted: base.unsorted,
            cwd: base.cwd.clone(),
            encode: base.encode.clone(),
            log: base.log,
            check: base.check,
            update: base.update,
            tutorial: base.tutorial,
            skip_tutorial: base.skip_tutorial,
            search: String::new(),
            show: clone_opt_opt(&base.show),
            show_all: clone_opt_opt(&base.show_all),
            show_log: base.show_log,
            show_settings: base.show_settings,
            web: base.web,
            server: base.server,
            gui: base.gui,
            debug: base.debug,
            debug_file: base.debug_file,
            backup: base.backup,
            dev: base.dev,
            music: clone_opt_opt(&base.music),
            subcommands: match &base.subcommands {
                Some(c) => Some(clone_commands(c)),
                None => None,
            },
        }
    }

    /// Builds the arguments from the parsed command line; the options of the `database`
    /// and `app` subcommands become flags of their own.
    pub fn from_args(args: ParserArgs) -> (r: Args)
        ensures
            r == args_from_parsed(args),
            r.url == args.url,
            r.info == args.info,
            r.lang == args.lang,
            r.title == args.title,
            r.folder == args.folder,
            r.volume == args.volume,
            r.chapter == args.chapter,
            r.saver == args.saver,
            r.stat == args.stat,
            r.quiet == args.quiet,
            r.max_consecutive == args.max_consecutive,
            r.force == args.force,
            r.offset == args.offset,
            r.database_offset == args.database_offset,
            r.unsorted == args.unsorted,
            r.cwd == args.cwd,
            r.encode == args.encode,
            r.log == args.log,
            r.tutorial == args.tutorial,
            r.skip_tutorial == args.skip_tutorial,
            r.search == args.search,
            r.web == args.web,
            r.server == args.server,
            r.gui == args.gui,
            r.debug == args.debug,
            r.debug_file == args.debug_file,
            r.dev == args.dev,
            r.music == args.music,
            r.subcommands == args.subcommands,
    {
        let (check, update, show, show_all, show_log, show_settings, backup) =
            match &args.subcommands {
            Some(
                Commands::Database {
                    check,
                    update,
                    show,
                    show_all,
                    show_log,
                    show_settings,
                    ..
                },
            ) => (
                *check,
                *update,
                clone_opt_opt(show),
                clone_opt_opt(show_all),
                *show_log,
                *show_settings,
                false,
            ),
            Some(Commands::App { backup, .. }) => (false, false, None, None, false, false, *backup),
            _ => (false, false, None, None, false, false, false),
        };
        Args {
            url: args.url,
            info: args.info,
            lang: args.lang,
            title: args.title,
            folder: args.folder,
            volume: args.volume,
            chapter: args.chapter,
            saver: args.saver,
            stat: args.stat,
            quiet: args.quiet,
            max_consecutive: args.max_consecutive,
            force: args.force,
            offset: args.offset,
            database_offset: args.database_offset,
            unsorted: args.unsorted,
            cwd: args.cwd,
            encode: args.encode,
            log: args.log,
            check,
            update,
            tutorial: args.tutorial,
            skip_tutorial: args.skip_tutorial,
            search: args.search,
            show,
            show_all,
            show_log,
            show_settings,
            web: args.web,
            server: args.server,
            gui: args.gui,
            debug: args.debug,
            debug_file: args.debug_file,
            backup,
            dev: args.dev,
            music: args.music,
            subcommands: args.subcommands,
        }
    }
}

} // verus!
