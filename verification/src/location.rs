//! Where the program keeps its files. A location is a base path with names
//! below it; how they are put together is up to the platform.

use crate::config::HistoryConfig;
use crate::pieces::texts;
use crate::text::text_in;
use vstd::prelude::*;

verus! {

/// A path: a base, and the names to go down from it.
#[derive(Debug)]
pub struct Location {
    pub base: String,
    pub parts: Vec<String>,
}

/// The values of a [`Location`].
pub ghost struct LocationView {
    pub base: Seq<char>,
    pub parts: Seq<Seq<char>>,
}

impl View for Location {
    type V = LocationView;

    open spec fn view(&self) -> LocationView {
        LocationView { base: self.base@, parts: texts(self.parts@) }
    }
}

impl LocationView {
    /// The location of that name right below this one.
    pub open spec fn below(self, name: Seq<char>) -> LocationView {
        LocationView { base: self.base, parts: self.parts.push(name) }
    }
}

/// The location that is a path by itself.
pub open spec fn at(base: Seq<char>) -> LocationView {
    LocationView { base, parts: Seq::empty() }
}

/// The location of a file or directory of the program: below the user's
/// configuration directory, or the current directory if there is none.
pub open spec fn in_app_dir(config_dir: Option<Seq<char>>, name: Seq<char>) -> LocationView {
    let base = match config_dir {
        Some(d) => d,
        None => "."@,
    };
    at(base).below("quoteme"@).below(name)
}

impl Location {
    /// The location that is a path by itself.
    pub fn new(base: String) -> (r: Location)
        ensures
            r@ == at(base@),
    {
        let r = Location { base, parts: Vec::new() };
        assert(texts(r.parts@) =~= Seq::empty());
        r
    }

    /// The location of that name right below this one.
    pub fn join(self, name: &str) -> (r: Location)
        ensures
            r@ == self@.below(name@),
    {
        let Location { base, parts } = self;
        let ghost before = texts(parts@);
        let mut parts = parts;
        parts.push(name.to_owned());
        assert(texts(parts@) =~= before.push(name@));
        Location { base, parts }
    }

    /// A location that is the same.
    pub fn duplicate(&self) -> (r: Location)
        ensures
            r@ == self@,
    {
        let mut parts: Vec<String> = Vec::new();
        let mut i: usize = 0;
        assert(texts(parts@) =~= texts(self.parts@).take(0));
        while i < self.parts.len()
            invariant
                0 <= i <= self.parts@.len(),
                texts(parts@) == texts(self.parts@).take(i as int),
            decreases self.parts@.len() - i,
        {
            let ghost before = texts(parts@);
            parts.push(self.parts[i].clone());
            assert(texts(parts@) =~= before.push(self.parts@[i as int]@));
            assert(texts(self.parts@).take(i + 1) =~= before.push(self.parts@[i as int]@));
            i += 1;
        }
        assert(texts(self.parts@).take(self.parts@.len() as int) =~= texts(self.parts@));
        Location { base: self.base.clone(), parts }
    }
}

fn app_location(config_dir: Option<String>, name: &str) -> (r: Location)
    ensures
        r@ == in_app_dir(text_in(config_dir), name@),
{
    let base = match config_dir {
        Some(d) => d,
        None => ".".to_owned(),
    };
    Location::new(base).join("quoteme").join(name)
}

/// Where the configuration file is.
pub open spec fn config_place(
    from_environment: Option<Seq<char>>,
    config_dir: Option<Seq<char>>,
) -> LocationView {
    match from_environment {
        Some(path) => at(path),
        None => in_app_dir(config_dir, "config.toml"@),
    }
}

/// Where the history directory is.
pub open spec fn history_place(
    configured: Seq<char>,
    config_dir: Option<Seq<char>>,
) -> LocationView {
    if configured.len() > 0 {
        at(configured)
    } else {
        in_app_dir(config_dir, "history"@)
    }
}

/// The configuration file: the one that the environment names, or the default.
pub fn config_path(from_environment: Option<String>, config_dir: Option<String>) -> (r: Location)
    ensures
        r@ == config_place(text_in(from_environment), text_in(config_dir)),
        r@ == match text_in(from_environment) {
            Some(path) => at(path),
            None => in_app_dir(text_in(config_dir), "config.toml"@),
        },
{
    match from_environment {
        Some(path) => Location::new(path),
        None => app_location(config_dir, "config.toml"),
    }
}

/// The file whose presence asks the daemon to read the configuration again.
pub fn reload_path(config_dir: Option<String>) -> (r: Location)
    ensures
        r@ == in_app_dir(text_in(config_dir), "reload"@),
{
    app_location(config_dir, "reload")
}

/// The file that holds the daemon's process number.
pub fn pid_path(config_dir: Option<String>) -> (r: Location)
    ensures
        r@ == in_app_dir(text_in(config_dir), "daemon.pid"@),
{
    app_location(config_dir, "daemon.pid")
}

/// The daemon's log.
pub fn log_path(config_dir: Option<String>) -> (r: Location)
    ensures
        r@ == in_app_dir(text_in(config_dir), "daemon.log"@),
{
    app_location(config_dir, "daemon.log")
}

/// The history directory: the configured one, or the default.
pub fn history_dir(config: &HistoryConfig, config_dir: Option<String>) -> (r: Location)
    ensures
        r@ == history_place(config@.path, text_in(config_dir)),
        r@ == if config@.path.len() > 0 {
            at(config@.path)
        } else {
            in_app_dir(text_in(config_dir), "history"@)
        },
{
    if !config.path.as_str().is_empty() {
        Location::new(config.path.clone())
    } else {
        app_location(config_dir, "history")
    }
}

/// Going down to a name keeps the base and all names before, and adds that one.
pub proof fn law_below(l: LocationView, name: Seq<char>, base: Seq<char>)
    ensures
        l.below(name).base == l.base,
        l.below(name).parts == l.parts + seq![name],
        at(base).base == base,
        at(base).parts.len() == 0,
{
    assert(l.below(name).parts =~= l.parts + seq![name]);
}

/// Files of the program stand in a directory of its own, below the user's
/// configuration directory if there is one, each under its name.
pub proof fn law_program_files(config_dir: Option<Seq<char>>, name: Seq<char>, other: Seq<char>)
    ensures
        ({
            let l = in_app_dir(config_dir, name);
            &&& config_dir matches Some(dir) ==> l.base == dir
            &&& config_dir is None ==> l.base == seq!['.']
            &&& l.parts == seq![seq!['q', 'u', 'o', 't', 'e', 'm', 'e'], name]
            &&& name != other ==> l != in_app_dir(config_dir, other)
        }),
{
    reveal_strlit(".");
    reveal_strlit("quoteme");
    let l = in_app_dir(config_dir, name);
    assert("quoteme"@ =~= seq!['q', 'u', 'o', 't', 'e', 'm', 'e']);
    assert("."@ =~= seq!['.']);
    assert(l.parts =~= seq!["quoteme"@, name]);
    assert(l.parts[1] == name);
    assert(in_app_dir(config_dir, other).parts[1] == other);
}

/// What the user names is used as it is, wherever the configuration directory may be: the
/// file that the environment names and the directory that is configured. Else both stand
/// among the files of the program, and are not the same.
pub proof fn law_named_places(
    named: Option<Seq<char>>,
    configured: Seq<char>,
    config_dir: Option<Seq<char>>,
)
    ensures
        named matches Some(path) ==> config_place(named, config_dir).base == path && config_place(
            named,
            config_dir,
        ).parts.len() == 0,
        configured.len() > 0 ==> history_place(configured, config_dir).base == configured
            && history_place(configured, config_dir).parts.len() == 0,
        named is None ==> config_place(named, config_dir) == in_app_dir(
            config_dir,
            "config.toml"@,
        ),
        configured.len() == 0 ==> history_place(configured, config_dir) == in_app_dir(
            config_dir,
            "history"@,
        ),
        named is None && configured.len() == 0 ==> config_place(named, config_dir)
            != history_place(configured, config_dir),
{
    reveal_strlit("config.toml");
    reveal_strlit("history");
    law_program_files(config_dir, "config.toml"@, "history"@);
    assert("config.toml"@.len() != "history"@.len());
}

} // verus!
