//! Decisions for opening static inbound ports via `ufw` (Linux).
//!
//! Running `ufw` / `pkexec` is left to the caller, which reports back how each run
//! ended; these functions say what to do next and which error to give. If `ufw` is
//! missing or inactive nothing needs opening; if it fails (typically lack of root)
//! the error carries the exact command to run manually.

use vstd::prelude::*;

use crate::error::{Error, Result};
use crate::text::{
    chars_eq, chars_of, dec, extend_chars, has_infix, lines, lines_v, push_dec, str_contains, string_of, views,
    words, words_v,
};

verus! {

/// How running an external command ended.
#[derive(Debug, Clone, PartialEq, Eq)]
pub enum CmdRun {
    /// The program is not installed.
    NotFound,
    /// The program could not be run, with the system's description.
    Failed(String),
    /// The program ran and exited.
    Exited {
        /// It exited successfully.
        success: bool,
        /// Its standard output (lossily decoded).
        stdout: String,
    },
}

/// What to do after `ufw status`.
#[derive(Debug, PartialEq, Eq)]
pub enum Next {
    /// Nothing more to run: the port is open (or need not be), or this error.
    Done(Result<()>),
    /// Run `ufw allow <rule>` and hand its outcome to [`after_allow`].
    Allow,
}

/// The firewall rule `port/proto`.
pub open spec fn rule_v(port: u16, proto: Seq<char>) -> Seq<char> {
    dec(port as nat) + seq!['/'] + proto
}

/// The firewall rule `port/proto` (e.g. `1982/udp`).
pub fn rule(port: u16, proto: &str) -> (r: String)
    ensures
        r@ == rule_v(port, proto@),
{
    let mut out: Vec<char> = Vec::new();
    push_dec(&mut out, port as u64);
    out.push('/');
    let p = chars_of(proto);
    extend_chars(&mut out, &p);
    assert(out@ =~= rule_v(port, proto@));
    string_of(&out)
}

/// The characters of `a`, `b` and `c` in a row.
fn join3(a: &str, b: &str, c: &str) -> (s: String)
    ensures
        s@ == a@ + b@ + c@,
{
    let mut out = chars_of(a);
    extend_chars(&mut out, &chars_of(b));
    extend_chars(&mut out, &chars_of(c));
    string_of(&out)
}

/// The characters of `a`, `b`, `c` and `d` in a row.
fn join4(a: &str, b: &str, c: &str, d: &str) -> (s: String)
    ensures
        s@ == a@ + b@ + c@ + d@,
{
    let mut out = chars_of(a);
    extend_chars(&mut out, &chars_of(b));
    extend_chars(&mut out, &chars_of(c));
    extend_chars(&mut out, &chars_of(d));
    string_of(&out)
}

/// `e` is a firewall error with message `m`.
pub open spec fn firewall_err(e: Error, m: Seq<char>) -> bool {
    e matches Error::Firewall(s) && s@ == m
}

/// Whether the word at `j` of a status line is an incoming allow action: `ALLOW`, not
/// followed by `OUT` (an outgoing rule) or `FWD` (a routed one).
pub open spec fn allow_in_at(ws: Seq<Seq<char>>, j: int) -> bool {
    &&& 0 <= j < ws.len()
    &&& ws[j] == "ALLOW"@
    &&& !(j + 1 < ws.len() && (ws[j + 1] == "OUT"@ || ws[j + 1] == "FWD"@))
}

/// Whether the words of a `ufw status` line make an incoming allow rule for exactly
/// `rule`: the line starts with the word `rule`, and its action (after an optional
/// `(v6)` marker) allows incoming traffic (see [`allow_in_at`]).
pub open spec fn allow_line_v(ws: Seq<Seq<char>>, rule: Seq<char>) -> bool {
    &&& ws.len() >= 2
    &&& ws[0] == rule
    &&& (allow_in_at(ws, 1) || (ws[1] == "(v6)"@ && allow_in_at(ws, 2)))
}

/// Whether the word at `j` of `ws` is an incoming allow action.
fn allow_in(ws: &Vec<Vec<char>>, j: usize) -> (b: bool)
    ensures
        b == allow_in_at(views(ws@), j as int),
{
    proof {
        reveal_strlit("ALLOW");
        reveal_strlit("OUT");
        reveal_strlit("FWD");
    }
    if j >= ws.len() || !chars_eq(&ws[j], &chars_of("ALLOW")) {
        return false;
    }
    !(j + 1 < ws.len() && (chars_eq(&ws[j + 1], &chars_of("OUT")) || chars_eq(&ws[j + 1], &chars_of("FWD"))))
}

/// `true` if a `ufw status` dump shows the firewall inactive, or has a line that
/// allows exactly `rule` (see [`allow_line_v`]).
pub open spec fn status_allows_v(stdout: Seq<char>, rule: Seq<char>) -> bool {
    has_infix(stdout, "Status: inactive"@) || exists|i: int|
        0 <= i < lines_v(stdout).len() && allow_line_v(words_v(#[trigger] lines_v(stdout)[i]), rule)
}

/// Whether the words `ws` of one status line allow exactly `rule`.
fn allow_line(ws: &Vec<Vec<char>>, rule: &Vec<char>) -> (b: bool)
    ensures
        b == allow_line_v(views(ws@), rule@),
{
    proof {
        reveal_strlit("(v6)");
    }
    if ws.len() < 2 || !chars_eq(&ws[0], rule) {
        return false;
    }
    allow_in(ws, 1) || (chars_eq(&ws[1], &chars_of("(v6)")) && allow_in(ws, 2))
}

/// `true` if a `ufw status` dump shows the firewall inactive or allows exactly `rule`.
pub fn status_allows(stdout: &str, rule: &str) -> (b: bool)
    ensures
        b == status_allows_v(stdout@, rule@),
{
    if str_contains(stdout, "Status: inactive") {
        return true;
    }
    let r = chars_of(rule);
    let ls = lines(&chars_of(stdout));
    let mut i: usize = 0;
    while i < ls.len()
        invariant
            i <= ls@.len(),
            views(ls@) == lines_v(stdout@),
            r@ == rule@,
            forall|j: int| 0 <= j < i ==> !allow_line_v(words_v(#[trigger] lines_v(stdout@)[j]), rule@),
        decreases ls@.len() - i,
    {
        let ws = words(&ls[i]);
        assert(ls@[i as int]@ == lines_v(stdout@)[i as int]);
        if allow_line(&ws, &r) {
            return true;
        }
        i = i + 1;
    }
    false
}

/// The manual fallback command for `rule`.
pub open spec fn manual_v(rule: Seq<char>) -> Seq<char> {
    "sudo ufw allow "@ + rule
}

/// What follows a `ufw status` run when ensuring `rule` is open.
pub open spec fn after_status_v(rule: Seq<char>, run: CmdRun, next: Next) -> bool {
    match run {
        CmdRun::NotFound => next matches Next::Done(Ok(())),
        CmdRun::Failed(e) => next matches Next::Done(Err(err)) && firewall_err(
            err,
            "running `ufw status`: "@ + e@,
        ),
        CmdRun::Exited { success, stdout } => if !success {
            next matches Next::Done(Err(err)) && firewall_err(
                err,
                "`ufw status` failed (needs root?). Run manually: "@ + manual_v(rule),
            )
        } else if status_allows_v(stdout@, rule) {
            next matches Next::Done(Ok(()))
        } else {
            next is Allow
        },
    }
}

/// Decide what follows `ufw status` when ensuring `rule` is open: nothing when `ufw`
/// is missing, inactive, or already allows the rule; an error when the status cannot
/// be read; otherwise `ufw allow`.
pub fn after_status(rule: &str, run: CmdRun) -> (n: Next)
    ensures
        after_status_v(rule@, run, n),
{
    match run {
        CmdRun::NotFound => Next::Done(Ok(())),
        CmdRun::Failed(e) => {
            proof {
                reveal_strlit("");
            }
            let m = join3("running `ufw status`: ", e.as_str(), "");
            assert(m@ =~= "running `ufw status`: "@ + e@);
            Next::Done(Err(Error::Firewall(m)))
        },
        CmdRun::Exited { success, stdout } => {
            if !success {
                proof {
                    reveal_strlit("");
                }
                let m = join3(
                    "`ufw status` failed (needs root?). Run manually: ",
                    "sudo ufw allow ",
                    rule,
                );
                assert(m@ =~= "`ufw status` failed (needs root?). Run manually: "@ + manual_v(rule@));
                return Next::Done(Err(Error::Firewall(m)));
            }
            if status_allows(stdout.as_str(), rule) {
                Next::Done(Ok(()))
            } else {
                Next::Allow
            }
        },
    }
}

/// What `ufw allow <rule>` yields, given whether it ran to a successful exit
/// (`Ok(success)`) or could not be run (`Err` with the system's description).
pub open spec fn after_allow_v(rule: Seq<char>, run: std::result::Result<bool, String>, r: Result<()>) -> bool {
    match run {
        Ok(true) => r is Ok,
        Ok(false) => r matches Err(err) && firewall_err(
            err,
            "`ufw allow "@ + rule + "` failed (needs root?). Run manually: "@ + manual_v(rule),
        ),
        Err(e) => r matches Err(err) && firewall_err(
            err,
            "running `ufw allow "@ + rule + "`: "@ + e@,
        ),
    }
}

/// The outcome of `ufw allow <rule>`.
pub fn after_allow(rule: &str, run: std::result::Result<bool, String>) -> (r: Result<()>)
    ensures
        after_allow_v(rule@, run, r),
{
    match run {
        Ok(true) => Ok(()),
        Ok(false) => {
            let mut out = chars_of("`ufw allow ");
            extend_chars(&mut out, &chars_of(rule));
            extend_chars(&mut out, &chars_of("` failed (needs root?). Run manually: "));
            extend_chars(&mut out, &chars_of("sudo ufw allow "));
            extend_chars(&mut out, &chars_of(rule));
            assert(out@ =~= "`ufw allow "@ + rule@ + "` failed (needs root?). Run manually: "@
                + manual_v(rule@));
            Err(Error::Firewall(string_of(&out)))
        },
        Err(e) => {
            let m = join4("running `ufw allow ", rule, "`: ", e.as_str());
            Err(Error::Firewall(m))
        },
    }
}

/// What a `ufw status` run says about whether `rule` is reachable.
pub open spec fn is_open_v(rule: Seq<char>, run: CmdRun, r: Result<bool>) -> bool {
    match run {
        CmdRun::Exited { success: true, stdout } => r == Ok::<bool, Error>(
            status_allows_v(stdout@, rule),
        ),
        CmdRun::Exited { success: false, .. } => r == Ok::<bool, Error>(false),
        CmdRun::NotFound => r == Ok::<bool, Error>(true),
        CmdRun::Failed(e) => r matches Err(err) && firewall_err(err, "running `ufw status`: "@ + e@),
    }
}

/// Whether `rule` is already reachable, judged from a `ufw status` run: `true` when
/// `ufw` is missing, inactive, or already allows the rule; `false` when it is active
/// without a matching rule, or its status can't be read (typically needs root).
pub fn is_open(rule: &str, run: CmdRun) -> (r: Result<bool>)
    ensures
        is_open_v(rule@, run, r),
{
    match run {
        CmdRun::Exited { success: true, stdout } => Ok(status_allows(stdout.as_str(), rule)),
        CmdRun::Exited { success: false, .. } => Ok(false),
        CmdRun::NotFound => Ok(true),
        CmdRun::Failed(e) => {
            proof {
                reveal_strlit("");
            }
            let m = join3("running `ufw status`: ", e.as_str(), "");
            assert(m@ =~= "running `ufw status`: "@ + e@);
            Err(Error::Firewall(m))
        },
    }
}

/// What `pkexec ufw allow <rule>` ending as `run` yields.
pub open spec fn pkexec_v(rule: Seq<char>, run: CmdRun, r: Result<()>) -> bool {
    match run {
        CmdRun::Exited { success: true, .. } => r is Ok,
        CmdRun::Exited { success: false, .. } => r matches Err(err) && firewall_err(
            err,
            "opening the firewall was cancelled or failed. Run manually: "@ + manual_v(rule),
        ),
        CmdRun::NotFound => r matches Err(err) && firewall_err(
            err,
            "`pkexec` not found. Run manually: "@ + manual_v(rule),
        ),
        CmdRun::Failed(e) => r matches Err(err) && firewall_err(
            err,
            "running `pkexec ufw allow "@ + rule + "`: "@ + e@,
        ),
    }
}

/// The outcome of `pkexec ufw allow <rule>` (a graphical polkit prompt). A dismissed
/// or denied prompt yields an error carrying the manual command.
pub fn after_pkexec(rule: &str, run: CmdRun) -> (r: Result<()>)
    ensures
        pkexec_v(rule@, run, r),
{
    match run {
        CmdRun::Exited { success: true, .. } => Ok(()),
        CmdRun::Exited { success: false, .. } => {
            let m = join3(
                "opening the firewall was cancelled or failed. Run manually: ",
                "sudo ufw allow ",
                rule,
            );
            assert(m@ =~= "opening the firewall was cancelled or failed. Run manually: "@ + manual_v(
                rule@,
            ));
            Err(Error::Firewall(m))
        },
        CmdRun::NotFound => {
            let m = join3("`pkexec` not found. Run manually: ", "sudo ufw allow ", rule);
            assert(m@ =~= "`pkexec` not found. Run manually: "@ + manual_v(rule@));
            Err(Error::Firewall(m))
        },
        CmdRun::Failed(e) => Err(
            Error::Firewall(join4("running `pkexec ufw allow ", rule, "`: ", e.as_str())),
        ),
    }
}

} // verus!
