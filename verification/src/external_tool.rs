//! External tool integration: the data model of user-configured commands
//! and the expansion of an argument template into a concrete argument
//! array, never a shell string, so path arguments with spaces, `;` or
//! backticks stay inert. Paths arrive as their display strings.

use vstd::prelude::*;

use crate::text::{chars_of, decimal, push_decimal, push_str, str_equal};

verus! {

/// Stable identifier of one external tool configuration.
#[derive(Debug, Clone, PartialEq, Eq, Hash)]
pub struct ToolId(pub String);

/// A configured external tool command: the program (run without shell
/// interpretation) and its argument template.
#[derive(Debug, Clone)]
pub struct ExternalToolCommand {
    pub id: ToolId,
    pub name: String,
    pub executable: String,
    pub args: Vec<ExternalToolArg>,
}

/// One element of an argument template.
#[derive(Debug, Clone, PartialEq, Eq)]
pub enum ExternalToolArg {
    /// A fixed string passed verbatim as one argument.
    Literal(String),
    /// A typed placeholder replaced at expansion time.
    Placeholder(ExternalToolPlaceholder),
    /// Two placeholders joined into one argument by a separator, such as
    /// `{path}:{line}`; the separator and second part are dropped when the
    /// second has no value, and the argument is omitted when the first has
    /// none.
    Joined { first: ExternalToolPlaceholder, separator: String, second: ExternalToolPlaceholder },
}

/// The supported placeholders.
#[derive(Debug, Clone, Copy, PartialEq, Eq, Structural)]
pub enum ExternalToolPlaceholder {
    /// The single active file path.
    Path,
    /// The left (old, source) file path.
    LeftPath,
    /// The right (new, result) file path.
    RightPath,
    /// The 1-based cursor line, in decimal.
    Line,
    /// The 1-based cursor column, in decimal.
    Column,
}

/// The `{token}` of each placeholder.
pub open spec fn token_of(p: ExternalToolPlaceholder) -> Seq<char> {
    match p {
        ExternalToolPlaceholder::Path => "{path}"@,
        ExternalToolPlaceholder::LeftPath => "{left}"@,
        ExternalToolPlaceholder::RightPath => "{right}"@,
        ExternalToolPlaceholder::Line => "{line}"@,
        ExternalToolPlaceholder::Column => "{column}"@,
    }
}

/// The placeholders in the order the settings form shows them.
pub open spec fn all_placeholders() -> Seq<ExternalToolPlaceholder> {
    seq![
        ExternalToolPlaceholder::Path,
        ExternalToolPlaceholder::LeftPath,
        ExternalToolPlaceholder::RightPath,
        ExternalToolPlaceholder::Line,
        ExternalToolPlaceholder::Column,
    ]
}

impl ExternalToolPlaceholder {
    /// The `{token}` shown in the settings form.
    pub fn token(self) -> (s: &'static str)
        ensures
            s@ == token_of(self),
    {
        match self {
            ExternalToolPlaceholder::Path => "{path}",
            ExternalToolPlaceholder::LeftPath => "{left}",
            ExternalToolPlaceholder::RightPath => "{right}",
            ExternalToolPlaceholder::Line => "{line}",
            ExternalToolPlaceholder::Column => "{column}",
        }
    }

    /// The placeholder whose token is exactly `s`, if any.
    pub fn from_token(s: &str) -> (r: Option<Self>)
        ensures
            r matches Some(p) ==> token_of(p) == s@,
            r is None ==> forall|p: ExternalToolPlaceholder| token_of(p) != s@,
    {
        if str_equal(s, "{path}") {
            Some(ExternalToolPlaceholder::Path)
        } else if str_equal(s, "{left}") {
            Some(ExternalToolPlaceholder::LeftPath)
        } else if str_equal(s, "{right}") {
            Some(ExternalToolPlaceholder::RightPath)
        } else if str_equal(s, "{line}") {
            Some(ExternalToolPlaceholder::Line)
        } else if str_equal(s, "{column}") {
            Some(ExternalToolPlaceholder::Column)
        } else {
            proof {
                assert forall|p: ExternalToolPlaceholder| token_of(p) != s@ by {
                    match p {
                        ExternalToolPlaceholder::Path => {},
                        ExternalToolPlaceholder::LeftPath => {},
                        ExternalToolPlaceholder::RightPath => {},
                        ExternalToolPlaceholder::Line => {},
                        ExternalToolPlaceholder::Column => {},
                    }
                }
            }
            None
        }
    }

    /// All supported placeholders, in display order.
    pub fn all() -> (v: Vec<Self>)
        ensures
            v@ == all_placeholders(),
    {
        let v = vec![
            ExternalToolPlaceholder::Path,
            ExternalToolPlaceholder::LeftPath,
            ExternalToolPlaceholder::RightPath,
            ExternalToolPlaceholder::Line,
            ExternalToolPlaceholder::Column,
        ];
        assert(v@ =~= all_placeholders());
        v
    }
}

/// The runtime values available to an expansion; paths are display
/// strings.
#[derive(Debug, Clone, Default)]
pub struct ExpandContext {
    /// Single active file path, for `{path}`.
    pub path: Option<String>,
    /// Left path, for `{left}`.
    pub left_path: Option<String>,
    /// Right path, for `{right}`.
    pub right_path: Option<String>,
    /// Cursor line, for `{line}`.
    pub line: Option<u32>,
    /// Cursor column, for `{column}`.
    pub column: Option<u32>,
}

/// The value a placeholder takes in a context, if the context has it.
pub open spec fn resolve_spec(p: ExternalToolPlaceholder, ctx: ExpandContext) -> Option<Seq<char>> {
    match p {
        ExternalToolPlaceholder::Path => match ctx.path { Some(s) => Some(s@), None => None },
        ExternalToolPlaceholder::LeftPath => match ctx.left_path { Some(s) => Some(s@), None => None },
        ExternalToolPlaceholder::RightPath => match ctx.right_path { Some(s) => Some(s@), None => None },
        ExternalToolPlaceholder::Line => match ctx.line { Some(n) => Some(decimal(n as nat)), None => None },
        ExternalToolPlaceholder::Column => match ctx.column { Some(n) => Some(decimal(n as nat)), None => None },
    }
}

/// The expansion of a template: literals verbatim, placeholders by their
/// context value, and a placeholder with no value omitted entirely.
pub open spec fn expand_spec(args: Seq<ExternalToolArg>, ctx: ExpandContext) -> Seq<Seq<char>>
    decreases args.len(),
{
    if args.len() == 0 {
        Seq::empty()
    } else {
        let prev = expand_spec(args.drop_last(), ctx);
        match args.last() {
            ExternalToolArg::Literal(s) => prev.push(s@),
            ExternalToolArg::Placeholder(p) => match resolve_spec(p, ctx) {
                Some(v) => prev.push(v),
                None => prev,
            },
            ExternalToolArg::Joined { first, separator, second } => match resolve_spec(first, ctx) {
                Some(v) => match resolve_spec(second, ctx) {
                    Some(w) => prev.push(v + separator@ + w),
                    None => prev.push(v),
                },
                None => prev,
            },
        }
    }
}

fn decimal_of(n: u32) -> (s: String)
    ensures
        s@ == decimal(n as nat),
{
    let mut s = String::new();
    push_decimal(&mut s, n as u64);
    assert(s@ =~= decimal(n as nat));
    s
}

fn resolve_placeholder(ph: ExternalToolPlaceholder, ctx: &ExpandContext) -> (r: Option<String>)
    ensures
        match resolve_spec(ph, *ctx) {
            Some(v) => r matches Some(s) && s@ == v,
            None => r is None,
        },
{
    match ph {
        ExternalToolPlaceholder::Path => match &ctx.path { Some(p) => Some(p.clone()), None => None },
        ExternalToolPlaceholder::LeftPath => match &ctx.left_path { Some(p) => Some(p.clone()), None => None },
        ExternalToolPlaceholder::RightPath => match &ctx.right_path { Some(p) => Some(p.clone()), None => None },
        ExternalToolPlaceholder::Line => match ctx.line { Some(n) => Some(decimal_of(n)), None => None },
        ExternalToolPlaceholder::Column => match ctx.column { Some(n) => Some(decimal_of(n)), None => None },
    }
}

/// Expand a command template into its argument array (the executable is
/// not included): each literal verbatim, each placeholder by its context
/// value, a placeholder with no value omitted.
pub fn expand_args(cmd: &ExternalToolCommand, ctx: &ExpandContext) -> (argv: Vec<String>)
    ensures
        argv@.map_values(|s: String| s@) == expand_spec(cmd.args@, *ctx),
{
    let mut result: Vec<String> = Vec::new();
    let mut i: usize = 0;
    while i < cmd.args.len()
        invariant
            i <= cmd.args@.len(),
            result@.map_values(|s: String| s@) == expand_spec(cmd.args@.subrange(0, i as int), *ctx),
        decreases cmd.args@.len() - i,
    {
        proof {
            assert(cmd.args@.subrange(0, i as int + 1).drop_last() =~= cmd.args@.subrange(0, i as int));
        }
        match &cmd.args[i] {
            ExternalToolArg::Literal(s) => result.push(s.clone()),
            ExternalToolArg::Placeholder(ph) => {
                match resolve_placeholder(*ph, ctx) {
                    Some(v) => result.push(v),
                    None => {},
                }
            },
            ExternalToolArg::Joined { first, separator, second } => {
                match resolve_placeholder(*first, ctx) {
                    Some(v) => {
                        let mut v = v;
                        match resolve_placeholder(*second, ctx) {
                            Some(w) => {
                                push_str(&mut v, separator.as_str());
                                push_str(&mut v, w.as_str());
                            },
                            None => {},
                        }
                        result.push(v);
                    },
                    None => {},
                }
            },
        }
        assert(result@.map_values(|s: String| s@) =~= expand_spec(cmd.args@.subrange(0, i as int + 1), *ctx));
        i = i + 1;
    }
    assert(cmd.args@.subrange(0, cmd.args@.len() as int) =~= cmd.args@);
    result
}

/// Error of `parse_arg` for a `{...}` string that is not a known token.
#[derive(Debug, Clone, PartialEq, Eq)]
pub struct UnknownTokenError {
    pub token: String,
}

/// The Rust debug rendering of a string: quoted, with escapes.
pub uninterp spec fn str_debug(s: Seq<char>) -> Seq<char>;

/// Every character of `s` is printable ASCII (space to `~`) other than
/// the quote marks and the backslash, which `Debug` escapes.
pub open spec fn plain_printable(s: Seq<char>) -> bool {
    forall|i: int| 0 <= i < s.len() ==> ' ' <= #[trigger] s[i] && s[i] <= '~' && s[i] != '"' && s[i] != '\''
        && s[i] != '\\'
}

/// The quoted, escaped form of `s`.
///
/// Trusted: wraps `format!("{:?}", s)` (the `Debug` impl of `str`); the
/// contract names its result, a function of the string alone, and states
/// the plain case: text of printable ASCII without quote marks or
/// backslashes is written between double quotes unchanged.
#[verifier::external_body]
pub(crate) fn debug_quoted(s: &str) -> (r: String)
    ensures
        r@ == str_debug(s@),
        plain_printable(s@) ==> r@ == seq!['"'] + s@ + seq!['"'],
{
    format!("{:?}", s)
}

impl UnknownTokenError {
    /// The message: the quoted token and the list of valid tokens.
    pub fn to_message(&self) -> (m: String)
        ensures
            m@ == "unknown placeholder token "@ + str_debug(self.token@) + "; valid tokens are: "@
                + "{path}, {left}, {right}, {line}, {column}"@,
    {
        let mut m = String::from_str("unknown placeholder token ");
        let q = debug_quoted(self.token.as_str());
        push_str(&mut m, q.as_str());
        push_str(&mut m, "; valid tokens are: ");
        push_str(&mut m, "{path}, {left}, {right}, {line}, {column}");
        m
    }
}

/// Each placeholder has its own token: two placeholders with the same
/// token are the same placeholder. So parsing a placeholder's token gives
/// back that placeholder, and `from_token` finds it.
pub proof fn law_tokens_identify_placeholders(p: ExternalToolPlaceholder, q: ExternalToolPlaceholder)
    ensures
        token_of(p) == token_of(q) ==> p == q,
{
    reveal_strlit("{path}");
    reveal_strlit("{left}");
    reveal_strlit("{right}");
    reveal_strlit("{line}");
    reveal_strlit("{column}");
    if token_of(p) == token_of(q) {
        let t = token_of(p);
        assert(t[1] == token_of(q)[1] && t[2] == token_of(q)[2] && t.len() == token_of(q).len());
    }
}

/// Parse one user-supplied argument: an exact known token becomes a
/// placeholder; any other `{...}` string is rejected; everything else is a
/// literal.
pub fn parse_arg(s: &str) -> (r: Result<ExternalToolArg, UnknownTokenError>)
    ensures
        (exists|p: ExternalToolPlaceholder| token_of(p) == s@) ==> (r matches Ok(ExternalToolArg::Placeholder(p)) && token_of(p) == s@),
        (forall|p: ExternalToolPlaceholder| token_of(p) != s@) && s@.len() > 0 && s@[0] == '{' && s@.last() == '}'
            ==> (r matches Err(e) && e.token@ == s@),
        (forall|p: ExternalToolPlaceholder| token_of(p) != s@) && !(s@.len() > 0 && s@[0] == '{' && s@.last() == '}')
            ==> (r matches Ok(ExternalToolArg::Literal(l)) && l@ == s@),
{
    match ExternalToolPlaceholder::from_token(s) {
        Some(ph) => return Ok(ExternalToolArg::Placeholder(ph)),
        None => {},
    }
    let cs = chars_of(s);
    if cs.len() > 0 && cs[0] == '{' && cs[cs.len() - 1] == '}' {
        return Err(UnknownTokenError { token: String::from_str(s) });
    }
    Ok(ExternalToolArg::Literal(String::from_str(s)))
}

/// The functional role of an external tool.
#[derive(Debug, Clone, Copy, PartialEq, Eq, Structural)]
pub enum ToolKind {
    /// Open a file at a line in an editor.
    Editor,
    /// Reveal a file or directory in the file manager.
    FileManager,
    /// Open a terminal at a directory.
    Terminal,
    /// A user-defined custom command.
    Custom,
}

/// A command as values: id, name, executable, argument template.
pub type CommandSpec = (Seq<char>, Seq<char>, Seq<char>, Seq<ExternalToolArg>);

impl ExternalToolCommand {
    /// The command as values.
    pub open spec fn model(self) -> CommandSpec {
        (self.id.0@, self.name@, self.executable@, self.args@)
    }

    /// Preset: reveal a path in the system file manager (`xdg-open {path}`).
    pub fn file_manager_reveal() -> (c: Self)
        ensures
            c.id.0@ == "builtin.file_manager_reveal"@,
            c.name@ == "Reveal in File Manager"@,
            c.executable@ == "xdg-open"@,
            c.args@ == seq![ExternalToolArg::Placeholder(ExternalToolPlaceholder::Path)],
    {
        let c = ExternalToolCommand {
            id: ToolId(String::from_str("builtin.file_manager_reveal")),
            name: String::from_str("Reveal in File Manager"),
            executable: String::from_str("xdg-open"),
            args: vec![ExternalToolArg::Placeholder(ExternalToolPlaceholder::Path)],
        };
        assert(c.args@ =~= seq![ExternalToolArg::Placeholder(ExternalToolPlaceholder::Path)]);
        c
    }

    /// Preset: open a file at a line in VS Code: `code --goto {path}:{line}`,
    /// the path and line joined into the one argument `--goto` takes.
    pub fn vscode_open() -> (c: Self)
        ensures
            c.id.0@ == "builtin.vscode_open"@,
            c.name@ == "Open in VS Code"@,
            c.executable@ == "code"@,
            c.args@.len() == 2,
            c.args@[0] matches ExternalToolArg::Literal(l) && l@ == "--goto"@,
            c.args@[1] matches ExternalToolArg::Joined { first, separator, second }
                && first == ExternalToolPlaceholder::Path && separator@ == ":"@
                && second == ExternalToolPlaceholder::Line,
    {
        ExternalToolCommand {
            id: ToolId(String::from_str("builtin.vscode_open")),
            name: String::from_str("Open in VS Code"),
            executable: String::from_str("code"),
            args: vec![
                ExternalToolArg::Literal(String::from_str("--goto")),
                ExternalToolArg::Joined {
                    first: ExternalToolPlaceholder::Path,
                    separator: String::from_str(":"),
                    second: ExternalToolPlaceholder::Line,
                },
            ],
        }
    }

    /// Preset: open a file with the system default application
    /// (`xdg-open {path}`).
    pub fn system_open() -> (c: Self)
        ensures
            c.id.0@ == "builtin.system_open"@,
            c.name@ == "Open with System Default"@,
            c.executable@ == "xdg-open"@,
            c.args@ == seq![ExternalToolArg::Placeholder(ExternalToolPlaceholder::Path)],
    {
        let c = ExternalToolCommand {
            id: ToolId(String::from_str("builtin.system_open")),
            name: String::from_str("Open with System Default"),
            executable: String::from_str("xdg-open"),
            args: vec![ExternalToolArg::Placeholder(ExternalToolPlaceholder::Path)],
        };
        assert(c.args@ =~= seq![ExternalToolArg::Placeholder(ExternalToolPlaceholder::Path)]);
        c
    }

    /// All built-in presets, in display order: file manager reveal, system
    /// open, VS Code.
    pub fn builtin_presets() -> (v: Vec<Self>)
        ensures
            v@.len() == 3,
            v@[0].id.0@ == "builtin.file_manager_reveal"@,
            v@[1].id.0@ == "builtin.system_open"@,
            v@[2].id.0@ == "builtin.vscode_open"@,
    {
        vec![
            ExternalToolCommand::file_manager_reveal(),
            ExternalToolCommand::system_open(),
            ExternalToolCommand::vscode_open(),
        ]
    }
}

} // verus!
