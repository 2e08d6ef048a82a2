//! What the exporters write for an external init system: which format, the
//! names of services and files, and the values put into the templates.

use crate::decimal::{decimal_chars, decimal_text};
use crate::launch::{env_view, keys_unique};
use crate::opts::{opt_text, text_or, ExportOpts};
use crate::procfile::{is_name_char, name_run};
use crate::text::{same_text, split, split_text};
use vstd::string::*;
use vstd::prelude::*;

verus! {

/// The init systems that a manifest can be exported to.
#[derive(PartialEq, Eq, Structural, Clone, Copy, Debug)]
pub enum ExportFormat {
    Upstart,
    Systemd,
    Supervisord,
    Runit,
    Launchd,
    Daemon,
}

pub open spec fn format_named(name: Seq<char>) -> Option<ExportFormat> {
    if name == "upstart"@ {
        Some(ExportFormat::Upstart)
    } else if name == "systemd"@ {
        Some(ExportFormat::Systemd)
    } else if name == "supervisord"@ {
        Some(ExportFormat::Supervisord)
    } else if name == "runit"@ {
        Some(ExportFormat::Runit)
    } else if name == "launchd"@ {
        Some(ExportFormat::Launchd)
    } else if name == "daemon"@ {
        Some(ExportFormat::Daemon)
    } else {
        None
    }
}

/// The export format of a name; `None` for a format that is not supported.
pub fn export_format(format: &str) -> (r: Option<ExportFormat>)
    ensures
        r == format_named(format@),
{
    if same_text(format, "upstart") {
        Some(ExportFormat::Upstart)
    } else if same_text(format, "systemd") {
        Some(ExportFormat::Systemd)
    } else if same_text(format, "supervisord") {
        Some(ExportFormat::Supervisord)
    } else if same_text(format, "runit") {
        Some(ExportFormat::Runit)
    } else if same_text(format, "launchd") {
        Some(ExportFormat::Launchd)
    } else if same_text(format, "daemon") {
        Some(ExportFormat::Daemon)
    } else {
        None
    }
}

/// The application's name: the option, else `app`.
pub open spec fn app_of(opts: ExportOpts) -> Seq<char> {
    text_or(opts.app, "app"@)
}

/// The application's name.
pub fn app_name(opts: &ExportOpts) -> (r: String)
    ensures
        r@ == app_of(*opts),
{
    match &opts.app {
        Some(a) => a.clone(),
        None => "app".to_string(),
    }
}

/// The log directory: the option, else `/var/log/<app>`.
pub fn log_path(opts: &ExportOpts) -> (r: String)
    ensures
        r@ == text_or(opts.log_path, "/var/log/"@ + app_of(*opts)),
{
    match &opts.log_path {
        Some(p) => p.clone(),
        None => {
            let mut p = "/var/log/".to_string();
            let app = app_name(opts);
            p.append(app.as_str());
            p
        },
    }
}

/// The pid directory: the option, else `/var/run/<app>`.
pub fn run_path(opts: &ExportOpts) -> (r: String)
    ensures
        r@ == text_or(opts.run_path, "/var/run/"@ + app_of(*opts)),
{
    match &opts.run_path {
        Some(p) => p.clone(),
        None => {
            let mut p = "/var/run/".to_string();
            let app = app_name(opts);
            p.append(app.as_str());
            p
        },
    }
}

/// The user the services run as: the option, else the application's name.
pub fn username(opts: &ExportOpts) -> (r: String)
    ensures
        r@ == text_or(opts.user, app_of(*opts)),
{
    match &opts.user {
        Some(u) => u.clone(),
        None => app_name(opts),
    }
}

/// The name of one exported replica: `<app>-<type>-<number>`.
pub open spec fn service_text(app: Seq<char>, name: Seq<char>, number: nat) -> Seq<char> {
    app + seq!['-'] + name + seq!['-'] + decimal_chars(number)
}

/// The name of one exported replica.
pub fn service_name(app: &str, name: &str, number: usize) -> (r: String)
    ensures
        r@ == service_text(app@, name@, number as nat),
{
    let mut s = app.to_string();
    let dash = "-";
    proof {
        reveal_strlit("-");
    }
    s.append(dash);
    s.append(name);
    s.append(dash);
    let digits = decimal_text(number as u64);
    s.append(digits.as_str());
    s
}

/// A variable put into a template.
pub struct EnvParameter {
    pub key: String,
    pub value: String,
}

/// The variables other than `PORT`, in their order.
pub open spec fn without_port(e: Seq<(Seq<char>, Seq<char>)>) -> Seq<(Seq<char>, Seq<char>)> {
    e.filter(|p: (Seq<char>, Seq<char>)| p.0 != "PORT"@)
}

/// The environment without `PORT`, which each service sets itself.
pub fn env_without_port(env: &Vec<(String, String)>) -> (r: Vec<EnvParameter>)
    ensures
        r@.map_values(|p: EnvParameter| (p.key@, p.value@)) == without_port(env_view(env@)),
{
    let mut out: Vec<EnvParameter> = Vec::new();
    let mut i: usize = 0;
    while i < env.len()
        invariant
            i <= env@.len(),
            out@.map_values(|p: EnvParameter| (p.key@, p.value@)) == without_port(
                env_view(env@).take(i as int),
            ),
        decreases env@.len() - i,
    {
        let ghost pre = out@;
        let ghost vs = env_view(env@);
        assert(vs.take(i + 1) == vs.take(i as int).push(vs[i as int]));
        proof {
            vs.take(i as int).lemma_filter_push(vs[i as int], |p: (Seq<char>, Seq<char>)| p.0 != "PORT"@);
        }
        if !same_text(env[i].0.as_str(), "PORT") {
            let param = EnvParameter { key: env[i].0.clone(), value: env[i].1.clone() };
            out.push(param);
            assert(out@.map_values(|p: EnvParameter| (p.key@, p.value@)) == pre.map_values(
                |p: EnvParameter| (p.key@, p.value@),
            ).push(vs[i as int]));
        }
        i = i + 1;
    }
    assert(env_view(env@).take(env@.len() as int) == env_view(env@));
    out
}

/// The words of a command, split at every space.
pub fn command_args(command: &str) -> (r: Vec<String>)
    ensures
        r@.map_values(|a: String| a@) == split(command@, ' '),
{
    split_text(command, ' ')
}

/// The words after the first, joined by spaces.
pub open spec fn join_words(words: Seq<Seq<char>>) -> Seq<char>
    decreases words.len(),
{
    if words.len() == 0 {
        Seq::empty()
    } else if words.len() == 1 {
        words[0]
    } else {
        join_words(words.drop_last()) + seq![' '] + words.last()
    }
}

/// The arguments of a command as the daemon format passes them: ` -- ` and
/// the words after the first, or nothing for a command of one word.
pub open spec fn args_text(command: Seq<char>) -> Seq<char> {
    let words = split(command, ' ');
    if words.len() > 1 {
        seq![' ', '-', '-', ' '] + join_words(words.drop_first())
    } else {
        Seq::empty()
    }
}

pub fn command_args_str(command: &str) -> (r: String)
    ensures
        r@ == args_text(command@),
{
    let args = command_args(command);
    let ghost words = split(command@, ' ');
    if args.len() <= 1 {
        return String::new();
    }
    let mut s = " -- ".to_string();
    let space = " ";
    proof {
        reveal_strlit(" -- ");
        reveal_strlit(" ");
    }
    let ghost rest = words.drop_first();
    let mut i: usize = 1;
    assert(rest.take(0) == Seq::<Seq<char>>::empty());
    while i < args.len()
        invariant
            1 <= i <= args@.len(),
            args@.map_values(|a: String| a@) == words,
            rest == words.drop_first(),
            space@ == seq![' '],
            s@ == seq![' ', '-', '-', ' '] + join_words(rest.take(i - 1)),
        decreases args@.len() - i,
    {
        assert(rest.take(i as int).drop_last() == rest.take(i - 1));
        assert(rest.take(i as int).last() == args@[i as int]@);
        if i > 1 {
            s.append(space);
        }
        s.append(args[i].as_str());
        i = i + 1;
    }
    assert(rest.take(i - 1) == rest);
    s
}

/// Length of the leading run of `c`.
pub open spec fn char_run(s: Seq<char>, c: char) -> nat
    decreases s.len(),
{
    if s.len() > 0 && s[0] == c {
        1 + char_run(s.drop_first(), c)
    } else {
        0
    }
}

/// Length of the variable reference at the start of `s` (`$NAME`, `${NAME}`,
/// with any number of braces), or zero when there is none.
pub open spec fn env_ref_len(s: Seq<char>) -> nat {
    if s.len() == 0 || s[0] != '$' {
        0
    } else {
        let b = char_run(s.drop_first(), '{') as int;
        let n = name_run(s.skip(1 + b)) as int;
        if n == 0 {
            0
        } else {
            (1 + b + n + char_run(s.skip(1 + b + n), '}')) as nat
        }
    }
}

/// The name in the variable reference at the start of `s`.
pub open spec fn env_ref_name(s: Seq<char>) -> Seq<char> {
    let b = char_run(s.drop_first(), '{') as int;
    s.skip(1 + b).take(name_run(s.skip(1 + b)) as int)
}

/// A command with every variable reference written as supervisord expects,
/// `%(ENV_NAME)s`, references being taken from left to right.
pub open spec fn supervisord_form(s: Seq<char>) -> Seq<char>
    decreases s.len(),
{
    if s.len() == 0 {
        s
    } else if 0 < env_ref_len(s) <= s.len() {
        seq!['%', '(', 'E', 'N', 'V', '_'] + env_ref_name(s) + seq![')', 's'] + supervisord_form(
            s.skip(env_ref_len(s) as int),
        )
    } else {
        seq![s[0]] + supervisord_form(s.drop_first())
    }
}

fn run_of(s: &str, start: usize, c: char) -> (r: usize)
    requires
        start <= s@.len(),
    ensures
        r == char_run(s@.skip(start as int), c),
        start + r <= s@.len(),
{
    let n = s.unicode_len();
    let mut k = start;
    while k < n && s.get_char(k) == c
        invariant
            n == s@.len(),
            start <= k <= n,
            char_run(s@.skip(start as int), c) == (k - start) + char_run(s@.skip(k as int), c),
        decreases n - k,
    {
        assert(s@.skip(k as int).drop_first() == s@.skip(k + 1));
        k = k + 1;
    }
    if k == n {
        assert(s@.skip(k as int).len() == 0);
    }
    k - start
}

fn name_run_of(s: &str, start: usize) -> (r: usize)
    requires
        start <= s@.len(),
    ensures
        r == name_run(s@.skip(start as int)),
        start + r <= s@.len(),
{
    let n = s.unicode_len();
    let mut k = start;
    while k < n && is_name_char_at(s, k)
        invariant
            n == s@.len(),
            start <= k <= n,
            name_run(s@.skip(start as int)) == (k - start) + name_run(s@.skip(k as int)),
        decreases n - k,
    {
        assert(s@.skip(k as int).drop_first() == s@.skip(k + 1));
        k = k + 1;
    }
    if k == n {
        assert(s@.skip(k as int).len() == 0);
    }
    k - start
}

fn is_name_char_at(s: &str, k: usize) -> (r: bool)
    requires
        k < s@.len(),
    ensures
        r == is_name_char(s@[k as int]),
{
    let c = s.get_char(k);
    ('A' <= c && c <= 'Z') || ('a' <= c && c <= 'z') || ('0' <= c && c <= '9') || c == '_' || c
        == '-'
}

/// Rewrites the variable references of a command for supervisord.
pub fn replace_env_for_supervisord(command: &str) -> (r: String)
    ensures
        r@ == supervisord_form(command@),
{
    let n = command.unicode_len();
    let mut out = String::new();
    let open = "%(ENV_";
    let close = ")s";
    proof {
        reveal_strlit("%(ENV_");
        reveal_strlit(")s");
    }
    let mut i: usize = 0;
    assert(command@.skip(0) == command@);
    while i < n
        invariant
            n == command@.len(),
            i <= n,
            open@ == seq!['%', '(', 'E', 'N', 'V', '_'],
            close@ == seq![')', 's'],
            out@ + supervisord_form(command@.skip(i as int)) == supervisord_form(command@),
        decreases n - i,
    {
        let ghost rest = command@.skip(i as int);
        assert(rest[0] == command@[i as int]);
        assert(rest.drop_first() == command@.skip(i + 1));
        let mut taken: usize = 0;
        if command.get_char(i) == '$' {
            let b = run_of(command, i + 1, '{');
            assert(rest.drop_first().skip(0) == command@.skip(i + 1));
            assert(command@.skip(i + 1) == rest.drop_first());
            assert(rest.skip(1 + b) == command@.skip(i + 1 + b));
            let k = name_run_of(command, i + 1 + b);
            if k > 0 {
                let c = run_of(command, i + 1 + b + k, '}');
                assert(rest.skip(1 + b + k) == command@.skip(i + 1 + b + k));
                let name = command.substring_char(i + 1 + b, i + 1 + b + k);
                assert(name@ == env_ref_name(rest));
                let ghost before = out@;
                out.append(open);
                out.append(name);
                out.append(close);
                taken = 1 + b + k + c;
                assert(env_ref_len(rest) == taken);
                assert(rest.skip(taken as int) == command@.skip(i + taken));
                assert(out@ == before + (seq!['%', '(', 'E', 'N', 'V', '_'] + env_ref_name(rest) + seq![')', 's']));
            }
        }
        if taken == 0 {
            assert(!(0 < env_ref_len(rest) <= rest.len()));
            let one = command.substring_char(i, i + 1);
            assert(one@ == seq![rest[0]]);
            let ghost before = out@;
            out.append(one);
            assert(out@ == before + seq![rest[0]]);
            i = i + 1;
        } else {
            i = i + taken;
        }
    }
    assert(command@.skip(n as int).len() == 0);
    out
}

/// Characters that a shell reads as themselves.
pub open spec fn shell_safe(c: char) -> bool {
    ('A' <= c && c <= 'Z') || ('a' <= c && c <= 'z') || ('0' <= c && c <= '9') || c == '_' || c
        == '-' || c == '.' || c == ',' || c == ':' || c == '/' || c == '@' || c == '\n'
}

/// Each character quoted for a shell: a backslash before every unsafe one, and
/// a newline put between single quotes.
pub open spec fn shell_quote_each(s: Seq<char>) -> Seq<char>
    decreases s.len(),
{
    if s.len() == 0 {
        s
    } else {
        let c = s.last();
        shell_quote_each(s.drop_last()) + if c == '\n' {
            seq!['\'', '\n', '\'']
        } else if shell_safe(c) {
            seq![c]
        } else {
            seq!['\\', c]
        }
    }
}

/// A text quoted for a shell; the empty text becomes `''`.
pub open spec fn shell_escaped(s: Seq<char>) -> Seq<char> {
    if s.len() == 0 {
        seq!['\'', '\'']
    } else {
        shell_quote_each(s)
    }
}

/// Relies on shellwords::escape: `''` for the empty text; otherwise a
/// backslash before each character outside `A-Za-z0-9_-.,:/@` and newline,
/// and each newline put between single quotes.
#[verifier::external_body]
fn escape_for_shell(s: &str) -> (r: String)
    ensures
        r@ == shell_escaped(s@),
{
    shellwords::escape(s)
}

/// The supervisord form of variables: `KEY="value"` joined by commas, each
/// value quoted for a shell.
pub open spec fn assignments(e: Seq<(Seq<char>, Seq<char>)>) -> Seq<char>
    decreases e.len(),
{
    if e.len() == 0 {
        Seq::empty()
    } else {
        let last = e.last();
        let one = last.0 + seq!['=', '"'] + shell_escaped(last.1) + seq!['"'];
        if e.len() == 1 {
            one
        } else {
            assignments(e.drop_last()) + seq![','] + one
        }
    }
}

/// The `environment` line of a supervisord program.
pub fn supervisord_environment(env: &Vec<(String, String)>) -> (r: String)
    ensures
        r@ == assignments(env_view(env@)),
{
    let eq = "=\"";
    let quote = "\"";
    let comma = ",";
    proof {
        reveal_strlit("=\"");
        reveal_strlit("\"");
        reveal_strlit(",");
    }
    let mut out = String::new();
    let mut i: usize = 0;
    assert(env_view(env@).take(0) == Seq::<(Seq<char>, Seq<char>)>::empty());
    while i < env.len()
        invariant
            i <= env@.len(),
            eq@ == seq!['=', '"'],
            quote@ == seq!['"'],
            comma@ == seq![','],
            out@ == assignments(env_view(env@).take(i as int)),
        decreases env@.len() - i,
    {
        let ghost vs = env_view(env@);
        assert(vs.take(i + 1).drop_last() == vs.take(i as int));
        assert(vs.take(i + 1).last() == vs[i as int]);
        if i > 0 {
            out.append(comma);
        }
        out.append(env[i].0.as_str());
        out.append(eq);
        let escaped = escape_for_shell(env[i].1.as_str());
        out.append(escaped.as_str());
        out.append(quote);
        i = i + 1;
    }
    assert(env_view(env@).take(env@.len() as int) == env_view(env@));
    out
}

} // verus!
