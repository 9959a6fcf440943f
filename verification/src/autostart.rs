//! Starting with the user's logon: the scheduled task that runs the program
//! with the highest privileges, its definition, and what is known of whether
//! it is registered.
use vstd::prelude::*;
use crate::text::{append_chars, append_str, chars_of, replace_all, replace_chars, string_of};

verus! {

/// The name of the scheduled task.
pub const TASK_NAME: &'static str = "DialogCursorMover";
/// Argument asking an elevated instance to register the task.
pub const ARG_INSTALL: &'static str = "--install-task";
/// Argument asking an elevated instance to delete the task.
pub const ARG_UNINSTALL: &'static str = "--uninstall-task";
/// Argument telling that the program was started by the task at logon.
pub const ARG_AUTOSTART: &'static str = "--autostart";

/// What is known of whether the task is registered; asking the task
/// scheduler takes hundreds of milliseconds, so the answer is kept.
pub struct RegistrationCache {
    pub known: Option<bool>,
}

impl RegistrationCache {
    /// Nothing known.
    pub fn new() -> (c: RegistrationCache)
        ensures
            c.known is None,
    {
        RegistrationCache { known: None }
    }
}

/// Whether the task is registered: the answer kept, or else what `query`
/// (which asks the task scheduler) says, which is then kept.
pub fn is_registered<F: FnOnce() -> bool>(cache: &mut RegistrationCache, query: F) -> (b: bool)
    requires
        call_requires(query, ()),
    ensures
        old(cache).known matches Some(v) ==> b == v && final(cache).known == old(cache).known,
        old(cache).known is None ==> call_ensures(query, (), b) && final(cache).known == Some(b),
{
    if let Some(v) = cache.known {
        return v;
    }
    let registered = query();
    cache.known = Some(registered);
    registered
}

/// Forgets what was known; to be called after registering or deleting the task.
pub fn invalidate_cache(cache: &mut RegistrationCache)
    ensures
        final(cache).known is None,
{
    cache.known = None;
}

/// Deletes the task by `run` (which runs the task scheduler's command line
/// `/Delete /TN <name> /F`) and forgets what was known. The result is `run`'s.
pub fn uninstall<F: FnOnce() -> Result<(), String>>(cache: &mut RegistrationCache, run: F) -> (r: Result<(), String>)
    requires
        call_requires(run, ()),
    ensures
        call_ensures(run, (), r),
        final(cache).known is None,
{
    let result = run();
    invalidate_cache(cache);
    result
}

/// The arguments of the task scheduler's command line that deletes the task.
pub fn uninstall_args() -> (v: Vec<&'static str>)
    ensures
        v@.len() == 4,
        v@[0]@ == "/Delete"@ && v@[1]@ == "/TN"@ && v@[2]@ == TASK_NAME@ && v@[3]@ == "/F"@,
{
    vec!["/Delete", "/TN", TASK_NAME, "/F"]
}

/// Text made safe inside XML: `&`, `<` and `>` replaced by entities, in that order.
pub open spec fn xml_escaped(s: Seq<char>) -> Seq<char> {
    replace_all(replace_all(replace_all(s, "&"@, "&amp;"@), "<"@, "&lt;"@), ">"@, "&gt;"@)
}

proof fn lemma_replace_avoids(s: Seq<char>, pat: Seq<char>, rep: Seq<char>, d: char)
    requires
        pat.len() == 1,
        forall|i: int| 0 <= i < rep.len() ==> rep[i] != d,
        pat[0] == d || forall|i: int| 0 <= i < s.len() ==> s[i] != d,
    ensures
        forall|i: int| 0 <= i < replace_all(s, pat, rep).len() ==> replace_all(s, pat, rep)[i] != d,
    decreases s.len(),
{
    if s.len() > 0 {
        let r = replace_all(s, pat, rep);
        if s.take(1) == pat {
            lemma_replace_avoids(s.skip(1), pat, rep, d);
            let rest = replace_all(s.skip(1), pat, rep);
            assert(r == rep + rest);
            assert forall|i: int| 0 <= i < r.len() implies r[i] != d by {
                if i >= rep.len() {
                    assert(r[i] == rest[i - rep.len()]);
                }
            }
        } else {
            assert(s[0] != d) by {
                if pat[0] == d && s[0] == d {
                    assert(s.take(1) =~= pat);
                }
            }
            lemma_replace_avoids(s.drop_first(), pat, rep, d);
            let rest = replace_all(s.drop_first(), pat, rep);
            assert(r == seq![s[0]] + rest);
            assert forall|i: int| 0 <= i < r.len() implies r[i] != d by {
                if i >= 1 {
                    assert(r[i] == rest[i - 1]);
                }
            }
        }
    }
}

/// An escaped value holds no `<` or `>`, so a path or a user name cannot
/// open or close an element of the task definition.
pub proof fn lemma_escaped_has_no_markup(s: Seq<char>)
    ensures
        forall|i: int| 0 <= i < xml_escaped(s).len() ==> xml_escaped(s)[i] != '<' && xml_escaped(s)[i] != '>',
{
    reveal_strlit("&");
    reveal_strlit("&amp;");
    reveal_strlit("<");
    reveal_strlit("&lt;");
    reveal_strlit(">");
    reveal_strlit("&gt;");
    let a = replace_all(s, "&"@, "&amp;"@);
    let b = replace_all(a, "<"@, "&lt;"@);
    lemma_replace_avoids(a, "<"@, "&lt;"@, '<');
    lemma_replace_avoids(b, ">"@, "&gt;"@, '>');
    lemma_replace_avoids(b, ">"@, "&gt;"@, '<');
}

/// `s` made safe inside XML (see [`xml_escaped`]).
pub fn xml_escape(s: &str) -> (r: String)
    ensures
        r@ == xml_escaped(s@),
{
    proof {
        reveal_strlit("&");
        reveal_strlit("<");
        reveal_strlit(">");
    }
    let cs = chars_of(s);
    let a = replace_chars(&cs, &chars_of("&"), &chars_of("&amp;"));
    let b = replace_chars(&a, &chars_of("<"), &chars_of("&lt;"));
    let c = replace_chars(&b, &chars_of(">"), &chars_of("&gt;"));
    string_of(&c)
}

/// The account the task runs as: `domain\name`, or just `name` when there is
/// no domain; `None` without a name.
pub open spec fn account(domain: Option<Seq<char>>, name: Option<Seq<char>>) -> Option<Seq<char>> {
    match (domain, name) {
        (Some(d), Some(n)) => Some(d + "\\"@ + n),
        (None, Some(n)) => Some(n),
        _ => None,
    }
}

pub open spec fn xml_head() -> Seq<char> {
    "<?xml version=\"1.0\" encoding=\"UTF-16\"?>\n<Task version=\"1.2\" xmlns=\"http://schemas.microsoft.com/windows/2004/02/mit/task\">\n  <RegistrationInfo>\n    <Description>ダイアログのOKボタンへ自動でマウスカーソルを移動する常駐ユーティリティ</Description>\n  </RegistrationInfo>\n  <Triggers>\n    <LogonTrigger>\n      <Enabled>true</Enabled>\n      <UserId>"@
}

pub open spec fn xml_after_trigger_user() -> Seq<char> {
    "</UserId>\n    </LogonTrigger>\n  </Triggers>\n  <Principals>\n    <Principal id=\"Author\">\n      <UserId>"@
}

pub open spec fn xml_after_principal_user() -> Seq<char> {
    "</UserId>\n      <LogonType>InteractiveToken</LogonType>\n      <RunLevel>HighestAvailable</RunLevel>\n    </Principal>\n  </Principals>\n  <Settings>\n    <MultipleInstancesPolicy>IgnoreNew</MultipleInstancesPolicy>\n    <DisallowStartIfOnBatteries>false</DisallowStartIfOnBatteries>\n    <StopIfGoingOnBatteries>false</StopIfGoingOnBatteries>\n    <AllowHardTerminate>true</AllowHardTerminate>\n    <StartWhenAvailable>false</StartWhenAvailable>\n    <RunOnlyIfNetworkAvailable>false</RunOnlyIfNetworkAvailable>\n    <IdleSettings>\n      <StopOnIdleEnd>false</StopOnIdleEnd>\n      <RestartOnIdle>false</RestartOnIdle>\n    </IdleSettings>\n    <AllowStartOnDemand>true</AllowStartOnDemand>\n    <Enabled>true</Enabled>\n    <Hidden>false</Hidden>\n    <RunOnlyIfIdle>false</RunOnlyIfIdle>\n    <WakeToRun>false</WakeToRun>\n    <ExecutionTimeLimit>PT0S</ExecutionTimeLimit>\n    <Priority>7</Priority>\n  </Settings>\n  <Actions Context=\"Author\">\n    <Exec>\n      <Command>"@
}

pub open spec fn xml_after_command() -> Seq<char> {
    "</Command>\n      <Arguments>"@
}

pub open spec fn xml_after_arguments() -> Seq<char> {
    "</Arguments>\n      <WorkingDirectory>"@
}

pub open spec fn xml_tail() -> Seq<char> {
    "</WorkingDirectory>\n    </Exec>\n  </Actions>\n</Task>\n"@
}

/// The task definition for the executable `exe` in the directory `dir`, run
/// at the logon of `user` only and as that user, with the highest privileges
/// available.
pub open spec fn task_definition(exe: Seq<char>, dir: Seq<char>, user: Seq<char>) -> Seq<char> {
    xml_head() + xml_escaped(user) + xml_after_trigger_user() + xml_escaped(user) + xml_after_principal_user()
        + xml_escaped(exe) + xml_after_command() + ARG_AUTOSTART@ + xml_after_arguments() + xml_escaped(dir)
        + xml_tail()
}

/// The task definition (see [`task_definition`]) for the executable `exe` in
/// `dir` and the account given by the environment's `domain` and `name`; an
/// error when the user name is unknown.
pub fn task_xml(exe: &str, dir: &str, domain: Option<String>, name: Option<String>) -> (r: Result<String, String>)
    ensures
        r is Err <==> name is None,
        r matches Ok(x) ==> account(match domain { Some(d) => Some(d@), None => None }, match name { Some(n) => Some(n@), None => None }) matches Some(u)
            && x@ == task_definition(exe@, dir@, u),
        r matches Err(e) ==> e@ == "ユーザー名を取得できません"@,
{
    let user = match (domain, name) {
        (Some(d), Some(n)) => {
            let mut u = chars_of(d.as_str());
            append_str(&mut u, "\\");
            append_str(&mut u, n.as_str());
            string_of(&u)
        },
        (None, Some(n)) => n,
        _ => return Err(String::from_str("ユーザー名を取得できません")),
    };
    let user = xml_escape(user.as_str());
    let exe = xml_escape(exe);
    let dir = xml_escape(dir);
    let mut out = chars_of("<?xml version=\"1.0\" encoding=\"UTF-16\"?>\n<Task version=\"1.2\" xmlns=\"http://schemas.microsoft.com/windows/2004/02/mit/task\">\n  <RegistrationInfo>\n    <Description>ダイアログのOKボタンへ自動でマウスカーソルを移動する常駐ユーティリティ</Description>\n  </RegistrationInfo>\n  <Triggers>\n    <LogonTrigger>\n      <Enabled>true</Enabled>\n      <UserId>");
    append_str(&mut out, user.as_str());
    append_str(&mut out, "</UserId>\n    </LogonTrigger>\n  </Triggers>\n  <Principals>\n    <Principal id=\"Author\">\n      <UserId>");
    append_str(&mut out, user.as_str());
    append_str(&mut out, "</UserId>\n      <LogonType>InteractiveToken</LogonType>\n      <RunLevel>HighestAvailable</RunLevel>\n    </Principal>\n  </Principals>\n  <Settings>\n    <MultipleInstancesPolicy>IgnoreNew</MultipleInstancesPolicy>\n    <DisallowStartIfOnBatteries>false</DisallowStartIfOnBatteries>\n    <StopIfGoingOnBatteries>false</StopIfGoingOnBatteries>\n    <AllowHardTerminate>true</AllowHardTerminate>\n    <StartWhenAvailable>false</StartWhenAvailable>\n    <RunOnlyIfNetworkAvailable>false</RunOnlyIfNetworkAvailable>\n    <IdleSettings>\n      <StopOnIdleEnd>false</StopOnIdleEnd>\n      <RestartOnIdle>false</RestartOnIdle>\n    </IdleSettings>\n    <AllowStartOnDemand>true</AllowStartOnDemand>\n    <Enabled>true</Enabled>\n    <Hidden>false</Hidden>\n    <RunOnlyIfIdle>false</RunOnlyIfIdle>\n    <WakeToRun>false</WakeToRun>\n    <ExecutionTimeLimit>PT0S</ExecutionTimeLimit>\n    <Priority>7</Priority>\n  </Settings>\n  <Actions Context=\"Author\">\n    <Exec>\n      <Command>");
    append_str(&mut out, exe.as_str());
    append_str(&mut out, "</Command>\n      <Arguments>");
    append_str(&mut out, ARG_AUTOSTART);
    append_str(&mut out, "</Arguments>\n      <WorkingDirectory>");
    append_str(&mut out, dir.as_str());
    append_str(&mut out, "</WorkingDirectory>\n    </Exec>\n  </Actions>\n</Task>\n");
    Ok(string_of(&out))
}

/// The odd multiplier of the mixing rounds (a bijection modulo 2^128).
pub const MULTIPLIER: u128 = 0x2545_F491_4F6C_DD1D_9E37_79B9_7F4A_7C15;
/// Mixed into the seed first, so that an all-zero seed still gives a varied name.
pub const SALT: u128 = 0x9E37_79B9_7F4A_7C15_F39C_C060_5CED_C835;

/// One mixing round: xor-shift right by 67, multiply (wrapping), xor-shift
/// right by 41.
pub open spec fn mix_round(v: u128) -> u128 {
    let a = v ^ (v >> 67u32);
    let b = a.wrapping_mul(MULTIPLIER);
    b ^ (b >> 41u32)
}

/// The seed mixed: salted, then three rounds.
pub open spec fn mixed(seed: u128) -> u128 {
    mix_round(mix_round(mix_round(seed ^ SALT)))
}

/// Stirs a seed (time, address and process id) so that one changed bit
/// changes the whole result and the seed cannot be read back from it.
pub fn mix(seed: u128) -> (r: u128)
    ensures
        r == mixed(seed),
{
    let mut v = seed ^ SALT;
    let ghost v0 = v;
    let mut i: usize = 0;
    while i < 3
        invariant
            i <= 3,
            v0 == seed ^ SALT,
            i == 0 ==> v == v0,
            i == 1 ==> v == mix_round(v0),
            i == 2 ==> v == mix_round(mix_round(v0)),
            i == 3 ==> v == mix_round(mix_round(mix_round(v0))),
        decreases 3 - i,
    {
        v = v ^ (v >> 67u32);
        v = v.wrapping_mul(MULTIPLIER);
        v = v ^ (v >> 41u32);
        i = i + 1;
    }
    v
}

/// A lower-case hexadecimal digit.
pub open spec fn hex_digit(d: nat) -> char {
    if d < 10 { ((d + 48) as u32) as char } else { ((d + 87) as u32) as char }
}

/// The last `count` hexadecimal digits of `n`, zero-padded (`{:0count$x}` for
/// numbers that fit).
pub open spec fn hex_tail(n: nat, count: nat) -> Seq<char>
    decreases count,
{
    if count == 0 {
        Seq::empty()
    } else {
        hex_tail(n / 16, (count - 1) as nat).push(hex_digit(n % 16))
    }
}

fn hex_char(d: u128) -> (c: char)
    requires
        d < 16,
    ensures
        c == hex_digit(d as nat),
{
    let b: u8 = if d < 10 { (d + 48) as u8 } else { (d + 87) as u8 };
    b as char
}

fn push_hex_tail(out: &mut Vec<char>, n: u128, count: usize)
    ensures
        final(out)@ == old(out)@ + hex_tail(n as nat, count as nat),
    decreases count,
{
    if count == 0 {
        assert(old(out)@ + hex_tail(n as nat, 0) =~= old(out)@);
        return;
    }
    push_hex_tail(out, n / 16, count - 1);
    out.push(hex_char(n % 16));
}

/// The name part of the temporary task definition file: the mixed seed as
/// 32 lower-case hexadecimal digits.
pub fn unique_suffix(seed: u128) -> (s: String)
    ensures
        s@ == hex_tail(mixed(seed) as nat, 32),
        s@.len() == 32,
{
    let v = mix(seed);
    let mut out: Vec<char> = Vec::new();
    push_hex_tail(&mut out, v, 32);
    proof { lemma_hex_tail_len(v as nat, 32); }
    string_of(&out)
}

proof fn lemma_hex_tail_len(n: nat, count: nat)
    ensures
        hex_tail(n, count).len() == count,
    decreases count,
{
    if count > 0 {
        lemma_hex_tail_len(n / 16, (count - 1) as nat);
    }
}

} // verus!
