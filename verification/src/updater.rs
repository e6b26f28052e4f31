//! Deciding whether a nightly build is newer than the installed one, and
//! the texts that the update shows and runs.
use vstd::prelude::*;
use vstd::string::StringExecFns;
use crate::i18n::I18n;
use crate::text::{chars_of, push_decimal, string_from_chars};

verus! {

/// The build stamp published beside a nightly build.
#[derive(Debug)]
pub struct VersionInfo {
    pub timestamp: String,
}

impl Clone for VersionInfo {
    fn clone(&self) -> (r: Self)
        ensures
            r.timestamp@ == self.timestamp@,
    {
        VersionInfo { timestamp: self.timestamp.clone() }
    }
}

/// `a > b` in the order of `String`: byte by byte, a proper prefix first.
pub open spec fn bytes_greater(a: Seq<u8>, b: Seq<u8>) -> bool
    decreases a.len(),
{
    if a.len() == 0 {
        false
    } else if b.len() == 0 {
        true
    } else if a[0] != b[0] {
        a[0] > b[0]
    } else {
        bytes_greater(a.skip(1), b.skip(1))
    }
}

pub open spec fn str_greater(a: Seq<char>, b: Seq<char>) -> bool {
    bytes_greater(vstd::utf8::encode_utf8(a), vstd::utf8::encode_utf8(b))
}

fn greater(a: &str, b: &str) -> (r: bool)
    ensures
        r == str_greater(a@, b@),
{
    let x = a.as_bytes();
    let y = b.as_bytes();
    let mut i: usize = 0;
    assert(x@.skip(0) =~= x@);
    assert(y@.skip(0) =~= y@);
    while i < x.len() && i < y.len() && x[i] == y[i]
        invariant
            i <= x@.len(),
            i <= y@.len(),
            bytes_greater(x@, y@) == bytes_greater(x@.skip(i as int), y@.skip(i as int)),
        decreases x@.len() - i,
    {
        assert(x@.skip(i as int).skip(1) =~= x@.skip(i + 1));
        assert(y@.skip(i as int).skip(1) =~= y@.skip(i + 1));
        i += 1;
    }
    if i == x.len() {
        false
    } else if i == y.len() {
        true
    } else {
        x[i] > y[i]
    }
}

/// Whether the published build should be offered: always when there is no
/// readable installed stamp, else when the published stamp is greater.
pub fn needs_update(remote: &VersionInfo, local: Option<&VersionInfo>) -> (r: bool)
    ensures
        r == match local {
            None => true,
            Some(l) => str_greater(remote.timestamp@, l.timestamp@),
        },
{
    match local {
        None => true,
        Some(l) => greater(remote.timestamp.as_str(), l.timestamp.as_str()),
    }
}

proof fn lemma_bytes_greater_irreflexive(a: Seq<u8>)
    ensures
        !bytes_greater(a, a),
    decreases a.len(),
{
    if a.len() > 0 {
        lemma_bytes_greater_irreflexive(a.skip(1));
    }
}

proof fn lemma_bytes_greater_asymmetric(a: Seq<u8>, b: Seq<u8>)
    ensures
        !(bytes_greater(a, b) && bytes_greater(b, a)),
    decreases a.len(),
{
    if a.len() > 0 && b.len() > 0 && a[0] == b[0] {
        lemma_bytes_greater_asymmetric(a.skip(1), b.skip(1));
    }
}

/// Law: once the published stamp is installed, the same build is not
/// offered again; and of two stamps at most one is newer than the other.
pub proof fn lemma_update_settles(remote: Seq<char>, local: Seq<char>)
    ensures
        !str_greater(remote, remote),
        !(str_greater(remote, local) && str_greater(local, remote)),
{
    lemma_bytes_greater_irreflexive(vstd::utf8::encode_utf8(remote));
    lemma_bytes_greater_asymmetric(vstd::utf8::encode_utf8(remote), vstd::utf8::encode_utf8(local));
}

/// `template` with every `{}`, read from left to right, replaced by `value`.
pub open spec fn fill_in(template: Seq<char>, value: Seq<char>) -> Seq<char>
    decreases template.len(),
{
    if template.len() == 0 {
        Seq::empty()
    } else if template.len() >= 2 && template[0] == '{' && template[1] == '}' {
        value + fill_in(template.skip(2), value)
    } else {
        seq![template[0]] + fill_in(template.skip(1), value)
    }
}

/// Replaces every `{}` of `template` by `value`.
pub fn fill_in_text(template: &str, value: &str) -> (r: String)
    ensures
        r@ == fill_in(template@, value@),
{
    let t = chars_of(template);
    let v = chars_of(value);
    let mut out: Vec<char> = Vec::new();
    let mut i: usize = 0;
    assert(t@.skip(0) =~= t@);
    assert(out@ + fill_in(t@.skip(0), v@) =~= fill_in(t@, v@));
    while i < t.len()
        invariant
            i <= t@.len(),
            t@ == template@,
            v@ == value@,
            out@ + fill_in(t@.skip(i as int), v@) == fill_in(t@, v@),
        decreases t@.len() - i,
    {
        let ghost rest = t@.skip(i as int);
        let ghost before = out@;
        if i + 1 < t.len() && t[i] == '{' && t[i + 1] == '}' {
            assert(rest[0] == '{' && rest[1] == '}');
            assert(rest.skip(2) =~= t@.skip(i + 2));
            let mut j: usize = 0;
            while j < v.len()
                invariant
                    j <= v@.len(),
                    out@ == before + v@.take(j as int),
                decreases v@.len() - j,
            {
                out.push(v[j]);
                assert(v@.take(j + 1) =~= v@.take(j as int).push(v@[j as int]));
                j += 1;
            }
            assert(v@.take(v@.len() as int) =~= v@);
            assert(out@ + fill_in(t@.skip(i + 2), v@) =~= before + fill_in(rest, v@));
            i += 2;
        } else {
            assert(rest[0] == t@[i as int]);
            assert(rest.skip(1) =~= t@.skip(i + 1));
            out.push(t[i]);
            assert(out@ + fill_in(t@.skip(i + 1), v@) =~= before + fill_in(rest, v@));
            i += 1;
        }
    }
    assert(t@.skip(i as int) =~= Seq::<char>::empty());
    assert(out@ + Seq::<char>::empty() =~= out@);
    string_from_chars(&out)
}

/// The question put to the user when a newer build is published: the
/// loaded translation of `update_available_desc` with the stamp in place
/// of `{}`.
pub fn update_prompt(i18n: &I18n, timestamp: &str) -> (r: String)
    ensures
        r@ == fill_in(
            if i18n.table().contains_key("update_available_desc"@) {
                i18n.table()["update_available_desc"@]
            } else {
                "update_available_desc"@
            },
            timestamp@,
        ),
{
    let desc = i18n.get("update_available_desc");
    fill_in_text(desc.as_str(), timestamp)
}

pub open spec fn script_text(pid: u32, new_exe: Seq<char>, current_exe: Seq<char>) -> Seq<char> {
    "Start-Sleep -Seconds 1; while (Get-Process -Id "@ + crate::text::decimal(pid as nat)
        + " -ErrorAction SilentlyContinue) { Start-Sleep -Milliseconds 100 }; Move-Item -Path '"@
        + new_exe + "' -Destination '"@ + current_exe + "' -Force; Start-Process -FilePath '"@
        + current_exe + "'"@
}

/// The PowerShell script that waits for process `pid` to end, moves the
/// downloaded program over the running one and starts it.
pub fn update_script(pid: u32, new_exe: &str, current_exe: &str) -> (r: String)
    ensures
        r@ == script_text(pid, new_exe@, current_exe@),
{
    let mut digits: Vec<char> = Vec::new();
    push_decimal(&mut digits, pid as u64);
    assert(digits@ =~= crate::text::decimal(pid as nat));
    let pid_text = string_from_chars(&digits);
    let mut s = String::from_str("Start-Sleep -Seconds 1; while (Get-Process -Id ");
    s.append(pid_text.as_str());
    s.append(" -ErrorAction SilentlyContinue) { Start-Sleep -Milliseconds 100 }; Move-Item -Path '");
    s.append(new_exe);
    s.append("' -Destination '");
    s.append(current_exe);
    s.append("' -Force; Start-Process -FilePath '");
    s.append(current_exe);
    s.append("'");
    s
}

} // verus!
