//! What the library knows of a device and its packages, and the device
//! operations that read or change them through the bridge.
use vstd::prelude::*;
use crate::text::{
    trim, words, contains, chars_of, trimmed, words_of, contains_exec, views, cat, string_of,
    lines, lines_of, string_views, starts_with, strip_all_prefix, last_index, starts_with_exec,
    strip_all_prefix_exec, last_index_exec, slice_of, occurs_at_exec, replace_all, replace_exec,
};
use crate::order::{sorted_order, sort_order};
use crate::transport::{
    Reply, Step, reply_view, owned, bridge_args, strings4, strings5,
    strings6,
};

verus! {

/// A connected device as the bridge lists it.
pub struct DeviceInfo {
    pub id: String,
    pub model: String,
    pub authorized: bool,
    pub state: String,
    pub is_rooted: bool,
}

/// An installed package: its name, the path of its primary APK, and
/// whether it belongs to the system image.
pub struct AppPackage {
    pub name: String,
    pub path: String,
    pub is_system: bool,
}

/// A package with the flags that the debloater shows.
pub struct DebloaterPackage {
    pub name: String,
    pub is_system: bool,
    pub is_disabled: bool,
    pub is_uninstalled: bool,
    pub description: Option<String>,
    pub recommendation: Option<String>,
}

/// Which of the bridge tools are available.
pub struct ToolsStatus {
    pub adb: bool,
    pub fastboot: bool,
}

/// An ASCII decimal digit.
pub open spec fn is_digit(c: char) -> bool {
    48 <= c as u32 && c as u32 <= 57
}

/// The value of a string of decimal digits.
pub open spec fn decimal_value(s: Seq<char>) -> int
    decreases s.len(),
{
    if s.len() == 0 {
        0
    } else {
        decimal_value(s.drop_last()) * 10 + (s.last() as u32 - 48)
    }
}

/// What `str::parse::<u64>` gives: an optional `+` followed by one or more
/// decimal digits, whose value fits in a `u64`.
pub open spec fn parsed_u64(s: Seq<char>) -> Option<u64> {
    let d = if s.len() > 0 && s[0] == '+' {
        s.drop_first()
    } else {
        s
    };
    if d.len() > 0 && (forall|i: int| 0 <= i < d.len() ==> is_digit(d[i])) && decimal_value(d)
        <= u64::MAX {
        Some(decimal_value(d) as u64)
    } else {
        None
    }
}

/// Relies on `str::parse::<u64>`: as `u64::from_str_radix` documents for
/// base 10, an optional `+` followed by digits only, whose value fits.
#[verifier::external_body]
pub(crate) fn parse_u64(s: &str) -> (r: Option<u64>)
    ensures
        r == parsed_u64(s@),
{
    s.parse::<u64>().ok()
}

/// Below this many bytes a number in a listing is taken for something else
/// than a file size.
pub const MIN_VALID_APK_SIZE: u64 = 1024;

/// The first word of `ws` that reads as a number above the minimum size.
pub open spec fn first_size(ws: Seq<Seq<char>>) -> Option<u64>
    decreases ws.len(),
{
    if ws.len() == 0 {
        None
    } else {
        match parsed_u64(ws[0]) {
            Some(n) => if n > MIN_VALID_APK_SIZE {
                Some(n)
            } else {
                first_size(ws.drop_first())
            },
            None => first_size(ws.drop_first()),
        }
    }
}

/// The size a `stat -c %s` output gives: the whole trimmed output as a number.
pub open spec fn stat_size(out: Seq<char>) -> Option<u64> {
    parsed_u64(trim(out))
}

/// The size read from an `ls -l` listing, a best-effort heuristic: the first
/// white-space separated word that reads as a number above
/// `MIN_VALID_APK_SIZE`, which passes over link counts, owner ids and dates.
pub open spec fn listing_size(out: Seq<char>) -> Result<u64, Seq<char>> {
    match first_size(words(out)) {
        Some(n) => Ok(n),
        None => Err("Could not determine file size"@),
    }
}

/// The size that a reply to `stat -c %s` gives, if any.
pub open spec fn stat_reply_size(reply: Result<Seq<char>, Seq<char>>) -> Option<u64> {
    match reply {
        Ok(out) => stat_size(out),
        Err(_) => None,
    }
}

/// `x` is the size that the reply to `ls -l` gives, or its error.
pub open spec fn listing_result(reply: Result<Seq<char>, Seq<char>>, x: Result<u64, String>) -> bool {
    match (reply, x) {
        (Err(e), Err(m)) => m@ == e,
        (Ok(out), Ok(n)) => listing_size(out) == Ok::<u64, Seq<char>>(n),
        (Ok(out), Err(m)) => listing_size(out) == Err::<u64, Seq<char>>(m@),
        _ => false,
    }
}

/// The size read from an `ls -l` listing, as `listing_size` states it.
pub fn size_from_listing(out: &str) -> (r: Result<u64, String>)
    ensures
        match r {
            Ok(n) => listing_size(out@) == Ok::<u64, Seq<char>>(n),
            Err(e) => listing_size(out@) == Err::<u64, Seq<char>>(e@),
        },
{
    let v = chars_of(out);
    let ws = words_of(&v);
    let mut i: usize = 0;
    assert(views(ws@).skip(0) =~= views(ws@));
    while i < ws.len()
        invariant
            i <= ws.len(),
            v@ == out@,
            views(ws@) == words(v@),
            first_size(views(ws@).skip(i as int)) == first_size(words(out@)),
        decreases ws.len() - i,
    {
        let ghost rest = views(ws@).skip(i as int);
        assert(rest[0] == ws@[i as int]@);
        assert(rest.drop_first() =~= views(ws@).skip(i + 1));
        let w = string_of(ws[i].as_slice());
        match parse_u64(w.as_str()) {
            Some(n) => {
                if n > MIN_VALID_APK_SIZE {
                    return Ok(n);
                }
            },
            None => {},
        }
        i = i + 1;
    }
    assert(views(ws@).skip(i as int).len() == 0);
    Err(owned("Could not determine file size"))
}

/// The size of the remote file `path` on device `device_id`, given the
/// replies so far: `stat -c %s` first, and when that fails or does not read
/// as a number, the `ls -l` heuristic of `size_from_listing`.
pub fn get_package_size(device_id: &str, path: &str, replies: &Vec<Reply>) -> (r: Step<
    Result<u64, String>,
>)
    ensures
        replies.len() == 0 ==> (r matches Step::Run(a) && string_views(a@) == seq![
            "-s"@,
            device_id@,
            "shell"@,
            "stat"@,
            "-c"@,
            "%s"@,
            path@,
        ]),
        replies.len() >= 1 && stat_reply_size(reply_view(replies[0])) is Some ==> (r matches Step::Done(
            x,
        ) && x == Ok::<u64, String>(stat_reply_size(reply_view(replies[0]))->0)),
        replies.len() == 1 && stat_reply_size(reply_view(replies[0])) is None ==> (r matches Step::Run(
            a,
        ) && string_views(a@) == seq!["-s"@, device_id@, "shell"@, "ls"@, "-l"@, path@]),
        replies.len() >= 2 && stat_reply_size(reply_view(replies[0])) is None ==> (r matches Step::Done(
            x,
        ) && listing_result(reply_view(replies[1]), x)),
{
    let dev = owned(device_id);
    if replies.len() == 0 {
        let rest = strings5(owned("shell"), owned("stat"), owned("-c"), owned("%s"), owned(path));
        let a = bridge_args(&dev, rest);
        assert(string_views(a@) =~= seq!["-s"@, device_id@, "shell"@, "stat"@, "-c"@, "%s"@, path@]);
        return Step::Run(a);
    }
    match &replies[0] {
        Ok(out) => {
            let v = chars_of(out.as_str());
            let t = trimmed(&v, 0, v.len());
            assert(v@.subrange(0, v.len() as int) =~= v@);
            let ts = string_of(t.as_slice());
            match parse_u64(ts.as_str()) {
                Some(n) => {
                    return Step::Done(Ok(n));
                },
                None => {},
            }
        },
        Err(_) => {},
    }
    if replies.len() == 1 {
        let rest = strings4(owned("shell"), owned("ls"), owned("-l"), owned(path));
        let a = bridge_args(&dev, rest);
        assert(string_views(a@) =~= seq!["-s"@, device_id@, "shell"@, "ls"@, "-l"@, path@]);
        return Step::Run(a);
    }
    match &replies[1] {
        Err(e) => Step::Done(Err(e.clone())),
        Ok(out) => Step::Done(size_from_listing(out.as_str())),
    }
}

/// Whether device `device_id` grants root, given the replies so far: an
/// elevated `id` whose output names uid 0 says so; anything else says not.
pub fn is_device_rooted(device_id: &str, replies: &Vec<Reply>) -> (r: Step<bool>)
    ensures
        replies.len() == 0 ==> (r matches Step::Run(a) && string_views(a@) == seq![
            "-s"@,
            device_id@,
            "shell"@,
            "su"@,
            "-c"@,
            "id"@,
        ]),
        replies.len() >= 1 ==> (r matches Step::Done(b) && b == (reply_view(replies[0]) matches Ok(
            out,
        ) && contains(out, "uid=0(root)"@))),
{
    if replies.len() == 0 {
        let a = bridge_args(&owned(device_id), strings4(owned("shell"), owned("su"), owned("-c"), owned("id")));
        assert(string_views(a@) =~= seq!["-s"@, device_id@, "shell"@, "su"@, "-c"@, "id"@]);
        return Step::Run(a);
    }
    match &replies[0] {
        Ok(out) => Step::Done(contains_exec(&chars_of(out.as_str()), &chars_of("uid=0(root)"))),
        Err(_) => Step::Done(false),
    }
}

/// `"Package '" + name + "'" + tail`.
fn package_message(name: &str, tail: &str) -> (r: String)
    ensures
        r@ == "Package '"@ + name@ + "'"@ + tail@,
{
    let a = cat("Package '", name);
    let b = cat(a.as_str(), "'");
    cat(b.as_str(), tail)
}

/// The outcome of a one-command package operation: its error, or `message`.
pub open spec fn one_command_result(
    replies: Seq<Reply>,
    message: Seq<char>,
    x: Result<String, String>,
) -> bool {
    match reply_view(replies[0]) {
        Ok(_) => (x matches Ok(m) && m@ == message),
        Err(e) => (x matches Err(m) && m@ == e),
    }
}

fn finish_one(reply: &Reply, message: String) -> (x: Result<String, String>)
    ensures
        match reply_view(*reply) {
            Ok(_) => (x matches Ok(m) && m@ == message@),
            Err(e) => (x matches Err(m) && m@ == e),
        },
{
    match reply {
        Ok(_) => Ok(message),
        Err(e) => Err(e.clone()),
    }
}

/// Disables `package_name` for the current user, given the replies so far.
pub fn disable_package(device_id: &str, package_name: &str, replies: &Vec<Reply>) -> (r: Step<
    Result<String, String>,
>)
    ensures
        replies.len() == 0 ==> (r matches Step::Run(a) && string_views(a@) == seq![
            "-s"@,
            device_id@,
            "shell"@,
            "pm"@,
            "disable-user"@,
            "--user"@,
            "0"@,
            package_name@,
        ]),
        replies.len() >= 1 ==> (r matches Step::Done(x) && one_command_result(
            replies@,
            "Package '"@ + package_name@ + "'"@ + " disabled."@,
            x,
        )),
{
    if replies.len() == 0 {
        let rest = strings6(
            owned("shell"),
            owned("pm"),
            owned("disable-user"),
            owned("--user"),
            owned("0"),
            owned(package_name),
        );
        let a = bridge_args(&owned(device_id), rest);
        assert(string_views(a@) =~= seq![
            "-s"@,
            device_id@,
            "shell"@,
            "pm"@,
            "disable-user"@,
            "--user"@,
            "0"@,
            package_name@,
        ]);
        return Step::Run(a);
    }
    Step::Done(finish_one(&replies[0], package_message(package_name, " disabled.")))
}

/// Enables `package_name` again for the current user, given the replies so
/// far.
pub fn enable_package(device_id: &str, package_name: &str, replies: &Vec<Reply>) -> (r: Step<
    Result<String, String>,
>)
    ensures
        replies.len() == 0 ==> (r matches Step::Run(a) && string_views(a@) == seq![
            "-s"@,
            device_id@,
            "shell"@,
            "pm"@,
            "enable"@,
            "--user"@,
            "0"@,
            package_name@,
        ]),
        replies.len() >= 1 ==> (r matches Step::Done(x) && one_command_result(
            replies@,
            "Package '"@ + package_name@ + "'"@ + " enabled."@,
            x,
        )),
{
    if replies.len() == 0 {
        let rest = strings6(
            owned("shell"),
            owned("pm"),
            owned("enable"),
            owned("--user"),
            owned("0"),
            owned(package_name),
        );
        let a = bridge_args(&owned(device_id), rest);
        assert(string_views(a@) =~= seq![
            "-s"@,
            device_id@,
            "shell"@,
            "pm"@,
            "enable"@,
            "--user"@,
            "0"@,
            package_name@,
        ]);
        return Step::Run(a);
    }
    Step::Done(finish_one(&replies[0], package_message(package_name, " enabled.")))
}

/// Uninstalls `package_name` for the current user, keeping its data, given
/// the replies so far.
pub fn uninstall_package(device_id: &str, package_name: &str, replies: &Vec<Reply>) -> (r: Step<
    Result<String, String>,
>)
    ensures
        replies.len() == 0 ==> (r matches Step::Run(a) && string_views(a@) == seq![
            "-s"@,
            device_id@,
            "shell"@,
            "pm"@,
            "uninstall"@,
            "-k"@,
            "--user"@,
            "0"@,
            package_name@,
        ]),
        replies.len() >= 1 ==> (r matches Step::Done(x) && one_command_result(
            replies@,
            "Package '"@ + package_name@ + "'"@ + " uninstalled for current user."@,
            x,
        )),
{
    if replies.len() == 0 {
        let mut rest = strings6(
            owned("shell"),
            owned("pm"),
            owned("uninstall"),
            owned("-k"),
            owned("--user"),
            owned("0"),
        );
        let ghost before = string_views(rest@);
        rest.push(owned(package_name));
        assert(string_views(rest@) =~= before.push(package_name@));
        let a = bridge_args(&owned(device_id), rest);
        assert(string_views(a@) =~= seq![
            "-s"@,
            device_id@,
            "shell"@,
            "pm"@,
            "uninstall"@,
            "-k"@,
            "--user"@,
            "0"@,
            package_name@,
        ]);
        return Step::Run(a);
    }
    Step::Done(
        finish_one(&replies[0], package_message(package_name, " uninstalled for current user.")),
    )
}

pub open spec fn reinstall_failure(name: Seq<char>, e: Seq<char>) -> Seq<char> {
    "Failed to reinstall '"@ + name
        + "'. NOTE: User (Downloaded) apps cannot be restored via ADB if fully uninstalled. You must reinstall them from Play Store. Original Error: "@
        + e
}

/// Reinstalls a package that was uninstalled for the current user, given
/// the replies so far: `cmd package install-existing` first, then the older
/// `pm install-existing`.
pub fn reinstall_package(device_id: &str, package_name: &str, replies: &Vec<Reply>) -> (r: Step<
    Result<String, String>,
>)
    ensures
        replies.len() == 0 ==> (r matches Step::Run(a) && string_views(a@) == seq![
            "-s"@,
            device_id@,
            "shell"@,
            "cmd"@,
            "package"@,
            "install-existing"@,
            package_name@,
        ]),
        replies.len() >= 1 && replies[0] is Ok ==> (r matches Step::Done(x) && x matches Ok(m)
            && m@ == "Package '"@ + package_name@ + "'"@ + " reinstalled successfully."@),
        replies.len() == 1 && replies[0] is Err ==> (r matches Step::Run(a) && string_views(a@)
            == seq!["-s"@, device_id@, "shell"@, "pm"@, "install-existing"@, package_name@]),
        replies.len() >= 2 && replies[0] is Err ==> (r matches Step::Done(x) && match reply_view(
            replies[1],
        ) {
            Ok(_) => (x matches Ok(m) && m@ == "Package '"@ + package_name@ + "'"@
                + " reinstalled (legacy method)."@),
            Err(e) => (x matches Err(m) && m@ == reinstall_failure(package_name@, e)),
        }),
{
    let dev = owned(device_id);
    if replies.len() == 0 {
        let rest = strings5(
            owned("shell"),
            owned("cmd"),
            owned("package"),
            owned("install-existing"),
            owned(package_name),
        );
        let a = bridge_args(&dev, rest);
        assert(string_views(a@) =~= seq![
            "-s"@,
            device_id@,
            "shell"@,
            "cmd"@,
            "package"@,
            "install-existing"@,
            package_name@,
        ]);
        return Step::Run(a);
    }
    if replies[0].is_ok() {
        return Step::Done(Ok(package_message(package_name, " reinstalled successfully.")));
    }
    if replies.len() == 1 {
        let rest = strings4(
            owned("shell"),
            owned("pm"),
            owned("install-existing"),
            owned(package_name),
        );
        let a = bridge_args(&dev, rest);
        assert(string_views(a@) =~= seq![
            "-s"@,
            device_id@,
            "shell"@,
            "pm"@,
            "install-existing"@,
            package_name@,
        ]);
        return Step::Run(a);
    }
    match &replies[1] {
        Ok(_) => Step::Done(Ok(package_message(package_name, " reinstalled (legacy method)."))),
        Err(e) => {
            let a = cat("Failed to reinstall '", package_name);
            let b = cat(
                a.as_str(),
                "'. NOTE: User (Downloaded) apps cannot be restored via ADB if fully uninstalled. You must reinstall them from Play Store. Original Error: ",
            );
            Step::Done(Err(cat(b.as_str(), e.as_str())))
        },
    }
}

/// The names of the lines `package:NAME` among `ls`, trimmed.
pub open spec fn prefixed_names(ls: Seq<Seq<char>>) -> Seq<Seq<char>>
    decreases ls.len(),
{
    if ls.len() == 0 {
        seq![]
    } else if starts_with(ls.last(), "package:"@) {
        prefixed_names(ls.drop_last()).push(trim(ls.last().skip("package:"@.len() as int)))
    } else {
        prefixed_names(ls.drop_last())
    }
}

/// The package names that a `pm list packages` output lists.
pub open spec fn listed_names(out: Seq<char>) -> Seq<Seq<char>> {
    prefixed_names(lines(out))
}

/// The text of a reply whose failure counts as empty output.
pub open spec fn text_or_empty(reply: Result<Seq<char>, Seq<char>>) -> Seq<char> {
    match reply {
        Ok(out) => out,
        Err(_) => seq![],
    }
}

/// The (path, name) of a `package:PATH=NAME` line: the line trimmed, the
/// prefix removed, split at its last `=`, the name trimmed.
pub open spec fn path_entry(line: Seq<char>) -> Option<(Seq<char>, Seq<char>)> {
    let t = trim(line);
    let content = strip_all_prefix(t, "package:"@);
    let k = last_index(content, '=');
    if starts_with(t, "package:"@) && k >= 0 {
        Some((content.take(k), trim(content.skip(k + 1))))
    } else {
        None
    }
}

/// The (path, name) entries among the lines `ls`.
pub open spec fn path_entries(ls: Seq<Seq<char>>) -> Seq<(Seq<char>, Seq<char>)>
    decreases ls.len(),
{
    if ls.len() == 0 {
        seq![]
    } else {
        match path_entry(ls.last()) {
            Some(e) => path_entries(ls.drop_last()).push(e),
            None => path_entries(ls.drop_last()),
        }
    }
}

pub open spec fn entry_names(es: Seq<(Seq<char>, Seq<char>)>) -> Seq<Seq<char>> {
    es.map_values(|e: (Seq<char>, Seq<char>)| e.1)
}

/// `ps` are the packages of the entries `es`, sorted stably by name, each
/// marked as a system package when `system` lists its name.
pub open spec fn packages_listed(
    ps: Seq<AppPackage>,
    es: Seq<(Seq<char>, Seq<char>)>,
    system: Seq<Seq<char>>,
) -> bool {
    let order = sorted_order(entry_names(es));
    &&& ps.len() == es.len()
    &&& forall|k: int|
        0 <= k < ps.len() ==> {
            &&& #[trigger] ps[k].name@ == es[order[k]].1
            &&& ps[k].path@ == es[order[k]].0
            &&& ps[k].is_system == system.contains(es[order[k]].1)
        }
}

fn chars_equal(a: &Vec<char>, b: &Vec<char>) -> (r: bool)
    ensures
        r == (a@ == b@),
{
    if a.len() != b.len() {
        return false;
    }
    let r = occurs_at_exec(a, b, 0);
    assert(a@.subrange(0, b@.len() as int) =~= a@);
    r
}

fn chars_listed(list: &Vec<Vec<char>>, x: &Vec<char>) -> (r: bool)
    ensures
        r == views(list@).contains(x@),
{
    let mut i: usize = 0;
    while i < list.len()
        invariant
            i <= list.len(),
            forall|j: int| 0 <= j < i ==> list@[j]@ != x@,
        decreases list.len() - i,
    {
        if chars_equal(&list[i], x) {
            assert(views(list@)[i as int] == x@);
            return true;
        }
        i = i + 1;
    }
    assert forall|j: int| 0 <= j < views(list@).len() implies views(list@)[j] != x@ by {
        assert(views(list@)[j] == list@[j]@);
    }
    false
}

/// The package names that a `pm list packages` output lists.
pub fn names_listed(out: &str) -> (r: Vec<Vec<char>>)
    ensures
        views(r@) == listed_names(out@),
{
    let v = chars_of(out);
    let ls = lines_of(&v);
    let prefix = chars_of("package:");
    let mut r: Vec<Vec<char>> = Vec::new();
    let mut i: usize = 0;
    while i < ls.len()
        invariant
            i <= ls.len(),
            prefix@ == "package:"@,
            views(ls@) == lines(out@),
            views(r@) == prefixed_names(views(ls@).take(i as int)),
        decreases ls.len() - i,
    {
        let line = &ls[i];
        let ghost taken = views(ls@).take(i + 1);
        assert(taken.drop_last() =~= views(ls@).take(i as int));
        assert(taken.last() == line@);
        if starts_with_exec(line, &prefix) {
            let name = trimmed(line, prefix.len(), line.len());
            assert(line@.subrange(prefix.len() as int, line.len() as int) =~= line@.skip(
                prefix.len() as int,
            ));
            let ghost before = r@;
            r.push(name);
            assert(views(r@) =~= views(before).push(name@));
        }
        i = i + 1;
    }
    assert(views(ls@).take(ls.len() as int) =~= views(ls@));
    r
}

/// The (path, name) entries of a `pm list packages -f` output, as two
/// lists.
fn entries_listed(out: &str) -> (r: (Vec<Vec<char>>, Vec<Vec<char>>))
    ensures
        r.0@.len() == path_entries(lines(out@)).len(),
        r.1@.len() == path_entries(lines(out@)).len(),
        forall|k: int| 0 <= k < r.0@.len() ==> #[trigger] r.0@[k]@ == path_entries(lines(out@))[k].0,
        forall|k: int| 0 <= k < r.1@.len() ==> #[trigger] r.1@[k]@ == path_entries(lines(out@))[k].1,
{
    let v = chars_of(out);
    let ls = lines_of(&v);
    let prefix = chars_of("package:");
    let mut paths: Vec<Vec<char>> = Vec::new();
    let mut names: Vec<Vec<char>> = Vec::new();
    let mut i: usize = 0;
    while i < ls.len()
        invariant
            i <= ls.len(),
            prefix@ == "package:"@,
            views(ls@) == lines(out@),
            paths@.len() == path_entries(views(ls@).take(i as int)).len(),
            names@.len() == paths@.len(),
            forall|k: int|
                0 <= k < paths@.len() ==> #[trigger] paths@[k]@ == path_entries(
                    views(ls@).take(i as int),
                )[k].0,
            forall|k: int|
                0 <= k < names@.len() ==> #[trigger] names@[k]@ == path_entries(
                    views(ls@).take(i as int),
                )[k].1,
        decreases ls.len() - i,
    {
        let line = &ls[i];
        let ghost taken = views(ls@).take(i + 1);
        let ghost prev = path_entries(views(ls@).take(i as int));
        assert(taken.drop_last() =~= views(ls@).take(i as int));
        assert(taken.last() == line@);
        let t = trimmed(line, 0, line.len());
        assert(line@.subrange(0, line.len() as int) =~= line@);
        let mut found = false;
        if starts_with_exec(&t, &prefix) {
            let content = strip_all_prefix_exec(&t, &prefix);
            proof {
                crate::text::lemma_last_index_bounds(content@, '=');
            }
            match last_index_exec(&content, '=') {
                Some(k) => {
                    assert(k < content@.len());
                    let path = slice_of(&content, 0, k);
                    let name = trimmed(&content, k + 1, content.len());
                    assert(path@ =~= content@.take(k as int));
                    assert(content@.subrange(k + 1, content.len() as int) =~= content@.skip(
                        k + 1,
                    ));
                    paths.push(path);
                    names.push(name);
                    found = true;
                    assert(path_entries(taken) == prev.push((path@, name@)));
                },
                None => {},
            }
        }
        if !found {
            assert(path_entries(taken) == prev);
        }
        i = i + 1;
    }
    assert(views(ls@).take(ls.len() as int) =~= views(ls@));
    (paths, names)
}

/// The installed packages of device `device_id` with their paths, sorted by
/// name, given the replies so far. The list of system packages comes first;
/// its failure counts as an empty list. The failure of the path listing is
/// the failure of the call.
pub fn get_packages(device_id: &str, replies: &Vec<Reply>) -> (r: Step<
    Result<Vec<AppPackage>, String>,
>)
    ensures
        replies.len() == 0 ==> (r matches Step::Run(a) && string_views(a@) == seq![
            "-s"@,
            device_id@,
            "shell"@,
            "pm"@,
            "list"@,
            "packages"@,
            "-s"@,
        ]),
        replies.len() == 1 ==> (r matches Step::Run(a) && string_views(a@) == seq![
            "-s"@,
            device_id@,
            "shell"@,
            "pm"@,
            "list"@,
            "packages"@,
            "-f"@,
        ]),
        replies.len() >= 2 ==> (r matches Step::Done(x) && match reply_view(replies[1]) {
            Err(e) => x is Err && x->Err_0@ == e,
            Ok(out) => x is Ok && packages_listed(
                x->Ok_0@,
                path_entries(lines(out)),
                listed_names(text_or_empty(reply_view(replies[0]))),
            ),
        }),
{
    let dev = owned(device_id);
    if replies.len() < 2 {
        let flag = if replies.len() == 0 {
            owned("-s")
        } else {
            owned("-f")
        };
        let mut rest = strings5(
            owned("shell"),
            owned("pm"),
            owned("list"),
            owned("packages"),
            flag,
        );
        let a = bridge_args(&dev, rest);
        assert(string_views(a@) =~= seq!["-s"@, device_id@] + string_views(rest@));
        return Step::Run(a);
    }
    let out = match &replies[1] {
        Err(e) => {
            return Step::Done(Err(e.clone()));
        },
        Ok(out) => out,
    };
    let system = match &replies[0] {
        Ok(s) => names_listed(s.as_str()),
        Err(_) => names_listed(""),
    };
    proof {
        if replies[0] is Err {
            assert(""@.len() == 0) by {
                reveal_strlit("");
            }
            assert(lines(""@) =~= seq![]);
        }
    }
    let (paths, names) = entries_listed(out.as_str());
    let ghost es = path_entries(lines(out@));
    assert(views(names@) =~= entry_names(es));
    let order = sort_order(&names);
    let ghost ord = sorted_order(entry_names(es));
    let ghost sys_names = views(system@);
    assert(sys_names == listed_names(text_or_empty(reply_view(replies@[0]))));
    let mut result: Vec<AppPackage> = Vec::new();
    let mut k: usize = 0;
    while k < order.len()
        invariant
            k <= order.len(),
            order@.len() == names@.len(),
            names@.len() == es.len(),
            paths@.len() == es.len(),
            forall|m: int| 0 <= m < order@.len() ==> #[trigger] order@[m] < names@.len(),
            order@.map_values(|x: usize| x as int) == ord,
            forall|m: int| 0 <= m < paths@.len() ==> #[trigger] paths@[m]@ == es[m].0,
            forall|m: int| 0 <= m < names@.len() ==> #[trigger] names@[m]@ == es[m].1,
            views(system@) == sys_names,
            result@.len() == k,
            forall|m: int|
                0 <= m < k ==> {
                    &&& #[trigger] result@[m].name@ == es[ord[m]].1
                    &&& result@[m].path@ == es[ord[m]].0
                    &&& result@[m].is_system == sys_names.contains(es[ord[m]].1)
                },
        decreases order.len() - k,
    {
        let j = order[k];
        assert(ord[k as int] == j as int);
        let name = &names[j];
        assert(name@ == es[j as int].1);
        assert(paths@[j as int]@ == es[j as int].0);
        result.push(
            AppPackage {
                name: string_of(name.as_slice()),
                path: string_of(paths[j].as_slice()),
                is_system: chars_listed(&system, name),
            },
        );
        k = k + 1;
    }
    Step::Done(Ok(result))
}

/// The tool a typed command runs.
pub enum Tool {
    Adb,
    Fastboot,
}

/// A command line to run: the tool and its arguments.
pub struct Invocation {
    pub tool: Tool,
    pub args: Vec<String>,
}

/// The words after the first `skip`, as strings.
fn words_from_index(ws: &Vec<Vec<char>>, skip: usize, out: &mut Vec<String>)
    requires
        skip <= ws.len(),
    ensures
        string_views(final(out)@) == string_views(old(out)@) + views(ws@).skip(skip as int),
{
    let mut i = skip;
    while i < ws.len()
        invariant
            skip <= i <= ws.len(),
            string_views(out@) == string_views(old(out)@) + views(ws@).subrange(skip as int, i as int),
        decreases ws.len() - i,
    {
        let ghost before = string_views(out@);
        out.push(string_of(ws[i].as_slice()));
        assert(string_views(out@) =~= before.push(ws@[i as int]@));
        assert(views(ws@).subrange(skip as int, i + 1) =~= views(ws@).subrange(
            skip as int,
            i as int,
        ).push(ws@[i as int]@));
        i = i + 1;
    }
    assert(views(ws@).subrange(skip as int, ws.len() as int) =~= views(ws@).skip(skip as int));
}

/// How a command typed by the user runs: `fastboot ...` runs fastboot with
/// the remaining words; anything else runs the bridge, a leading `adb`
/// dropped, aimed at `device_id` when one is given.
pub fn execute_unified_command(device_id: Option<&str>, command: &str) -> (r: Result<
    Invocation,
    String,
>)
    ensures
        words(command@).len() == 0 ==> (r matches Err(e) && e@ == "Empty command"@),
        words(command@).len() > 0 && words(command@)[0] == "fastboot"@ ==> (r matches Ok(inv)
            && inv.tool is Fastboot && string_views(inv.args@) == words(command@).skip(1)),
        words(command@).len() > 0 && words(command@)[0] != "fastboot"@ ==> (r matches Ok(inv)
            && inv.tool is Adb && string_views(inv.args@) == (match device_id {
            Some(id) => seq!["-s"@, id@],
            None => seq![],
        }) + words(command@).skip(
            if words(command@)[0] == "adb"@ {
                1
            } else {
                0
            },
        )),
{
    let v = chars_of(command);
    let ws = words_of(&v);
    if ws.len() == 0 {
        return Err(owned("Empty command"));
    }
    assert(views(ws@)[0] == ws@[0]@);
    if chars_equal(&ws[0], &chars_of("fastboot")) {
        let mut args: Vec<String> = Vec::new();
        words_from_index(&ws, 1, &mut args);
        assert(string_views(args@) =~= views(ws@).skip(1));
        return Ok(Invocation { tool: Tool::Fastboot, args });
    }
    let mut args: Vec<String> = Vec::new();
    match device_id {
        Some(id) => {
            args.push(owned("-s"));
            args.push(owned(id));
        },
        None => {},
    }
    let ghost head = string_views(args@);
    assert(head =~= match device_id {
        Some(id) => seq!["-s"@, id@],
        None => seq![],
    });
    let skip: usize = if chars_equal(&ws[0], &chars_of("adb")) {
        1
    } else {
        0
    };
    words_from_index(&ws, skip, &mut args);
    Ok(Invocation { tool: Tool::Adb, args })
}

/// What the debloater knows of a package.
pub struct KnowledgeEntry {
    pub id: String,
    pub description: String,
    pub recommendation: String,
}

/// The (description, recommendation) of the last entry about `name`.
pub open spec fn knowledge_of(kb: Seq<KnowledgeEntry>, name: Seq<char>) -> Option<
    (Seq<char>, Seq<char>),
>
    decreases kb.len(),
{
    if kb.len() == 0 {
        None
    } else if kb.last().id@ == name {
        Some((kb.last().description@, kb.last().recommendation@))
    } else {
        knowledge_of(kb.drop_last(), name)
    }
}

pub open spec fn opt_view(o: Option<String>) -> Option<Seq<char>> {
    match o {
        Some(s) => Some(s@),
        None => None,
    }
}

/// The listing that names every package: that of `pm list packages -u`,
/// unless it is blank, in which case that of the installed packages.
pub open spec fn full_listing(replies: Seq<Reply>) -> Seq<char> {
    let installed = text_or_empty(reply_view(replies[0]));
    let all = text_or_empty(reply_view(replies[1]));
    if trim(all).len() == 0 {
        installed
    } else {
        all
    }
}

/// `p` is the package named `n`, with its flags from the listings of
/// installed, system and disabled packages, and what `kb` knows of it.
pub open spec fn debloater_entry(
    p: DebloaterPackage,
    n: Seq<char>,
    installed: Seq<Seq<char>>,
    system: Seq<Seq<char>>,
    disabled: Seq<Seq<char>>,
    kb: Seq<KnowledgeEntry>,
) -> bool {
    &&& p.name@ == n
    &&& p.is_system == system.contains(n)
    &&& p.is_disabled == disabled.contains(n)
    &&& p.is_uninstalled == (!installed.contains(n) && n.len() > 0)
    &&& opt_view(p.description) == (match knowledge_of(kb, n) {
        Some(e) => Some(e.0),
        None => None,
    })
    &&& opt_view(p.recommendation) == (match knowledge_of(kb, n) {
        Some(e) => Some(e.1),
        None => None,
    })
}

/// `ps` are the packages named in the replies to the four listings
/// (installed, all, system, disabled), sorted stably by name, with their
/// flags and what `kb` knows of them.
pub open spec fn debloater_listed(
    ps: Seq<DebloaterPackage>,
    replies: Seq<Reply>,
    kb: Seq<KnowledgeEntry>,
) -> bool {
    let names = listed_names(full_listing(replies));
    let installed = listed_names(text_or_empty(reply_view(replies[0])));
    let system = listed_names(text_or_empty(reply_view(replies[2])));
    let disabled = listed_names(text_or_empty(reply_view(replies[3])));
    let order = sorted_order(names);
    &&& ps.len() == names.len()
    &&& forall|k: int|
        0 <= k < ps.len() ==> #[trigger] debloater_entry(
            ps[k],
            names[order[k]],
            installed,
            system,
            disabled,
            kb,
        )
}

fn knowledge_lookup(kb: &Vec<KnowledgeEntry>, name: &Vec<char>) -> (r: Option<(String, String)>)
    ensures
        match knowledge_of(kb@, name@) {
            Some(e) => r matches Some(x) && x.0@ == e.0 && x.1@ == e.1,
            None => r is None,
        },
{
    let mut k = kb.len();
    assert(kb@.take(k as int) =~= kb@);
    while k > 0
        invariant
            k <= kb.len(),
            knowledge_of(kb@.take(k as int), name@) == knowledge_of(kb@, name@),
        decreases k,
    {
        assert(kb@.take(k as int).last() == kb@[k - 1]);
        if chars_equal(&chars_of(kb[k - 1].id.as_str()), name) {
            return Some((kb[k - 1].description.clone(), kb[k - 1].recommendation.clone()));
        }
        assert(kb@.take(k as int).drop_last() =~= kb@.take(k - 1));
        k = k - 1;
    }
    None
}

/// Every package of device `device_id`, installed or uninstalled for the
/// user, with its flags and what `knowledge` says of it, sorted by name,
/// given the replies so far. A failed listing counts as empty; when no
/// package is found at all, the call fails.
pub fn get_all_packages(
    device_id: &str,
    knowledge: &Vec<KnowledgeEntry>,
    replies: &Vec<Reply>,
) -> (r: Step<Result<Vec<DebloaterPackage>, String>>)
    ensures
        replies.len() == 0 ==> (r matches Step::Run(a) && string_views(a@) == seq![
            "-s"@,
            device_id@,
            "shell"@,
            "pm"@,
            "list"@,
            "packages"@,
        ]),
        1 <= replies.len() < 4 ==> (r matches Step::Run(a) && string_views(a@) == seq![
            "-s"@,
            device_id@,
            "shell"@,
            "pm"@,
            "list"@,
            "packages"@,
            if replies.len() == 1 {
                "-u"@
            } else if replies.len() == 2 {
                "-s"@
            } else {
                "-d"@
            },
        ]),
        replies.len() >= 4 && listed_names(full_listing(replies@)).len() == 0 ==> (r matches Step::Done(
            x,
        ) && (x matches Err(e) && e@ == "No packages found. ADB connection failure or locked device."@)),
        replies.len() >= 4 && listed_names(full_listing(replies@)).len() > 0 ==> (r matches Step::Done(
            x,
        ) && (x matches Ok(ps) && debloater_listed(ps@, replies@, knowledge@))),
{
    let dev = owned(device_id);
    if replies.len() == 0 {
        let a = bridge_args(&dev, strings4(owned("shell"), owned("pm"), owned("list"), owned("packages")));
        assert(string_views(a@) =~= seq!["-s"@, device_id@, "shell"@, "pm"@, "list"@, "packages"@]);
        return Step::Run(a);
    }
    if replies.len() < 4 {
        let flag = if replies.len() == 1 {
            owned("-u")
        } else if replies.len() == 2 {
            owned("-s")
        } else {
            owned("-d")
        };
        let rest = strings5(owned("shell"), owned("pm"), owned("list"), owned("packages"), flag);
        let a = bridge_args(&dev, rest);
        assert(string_views(a@) =~= seq!["-s"@, device_id@] + string_views(rest@));
        return Step::Run(a);
    }
    let installed_text = text_of(&replies[0]);
    let all_text = text_of(&replies[1]);
    let all_chars = chars_of(all_text.as_str());
    let (lo, hi) = crate::text::trim_bounds(&all_chars, 0, all_chars.len());
    assert(all_chars@.subrange(0, all_chars.len() as int) =~= all_chars@);
    let listing = if lo == hi {
        installed_text.clone()
    } else {
        all_text.clone()
    };
    assert(listing@ == full_listing(replies@));
    let names = names_listed(listing.as_str());
    let installed = names_listed(installed_text.as_str());
    let system = names_listed(text_of(&replies[2]).as_str());
    let disabled = names_listed(text_of(&replies[3]).as_str());
    if names.len() == 0 {
        return Step::Done(Err(owned("No packages found. ADB connection failure or locked device.")));
    }
    let order = sort_order(&names);
    let ghost ns = views(names@);
    let ghost ord = sorted_order(ns);
    let mut result: Vec<DebloaterPackage> = Vec::new();
    let mut k: usize = 0;
    while k < order.len()
        invariant
            k <= order.len(),
            order@.len() == names@.len(),
            ns == views(names@),
            ns == listed_names(full_listing(replies@)),
            replies@.len() >= 4,
            views(installed@) == listed_names(text_or_empty(reply_view(replies@[0]))),
            views(system@) == listed_names(text_or_empty(reply_view(replies@[2]))),
            views(disabled@) == listed_names(text_or_empty(reply_view(replies@[3]))),
            forall|m: int| 0 <= m < order@.len() ==> #[trigger] order@[m] < names@.len(),
            order@.map_values(|x: usize| x as int) == ord,
            ord == sorted_order(ns),
            result@.len() == k,
            forall|m: int|
                0 <= m < k ==> #[trigger] debloater_entry(
                    result@[m],
                    ns[ord[m]],
                    views(installed@),
                    views(system@),
                    views(disabled@),
                    knowledge@,
                ),
        decreases order.len() - k,
    {
        let j = order[k];
        assert(ord[k as int] == j as int);
        let name = &names[j];
        assert(name@ == ns[j as int]);
        let (description, recommendation) = match knowledge_lookup(knowledge, name) {
            Some((d, r)) => (Some(d), Some(r)),
            None => (None, None),
        };
        let p = DebloaterPackage {
            name: string_of(name.as_slice()),
            is_system: chars_listed(&system, name),
            is_disabled: chars_listed(&disabled, name),
            is_uninstalled: !chars_listed(&installed, name) && name.len() > 0,
            description,
            recommendation,
        };
        let ghost n = ns[ord[k as int]];
        assert(debloater_entry(
            p,
            n,
            views(installed@),
            views(system@),
            views(disabled@),
            knowledge@,
        ));
        let ghost before = result@;
        result.push(p);
        assert forall|m: int| 0 <= m < k + 1 implies #[trigger] debloater_entry(
            result@[m],
            ns[ord[m]],
            views(installed@),
            views(system@),
            views(disabled@),
            knowledge@,
        ) by {
            if m < k {
                assert(result@[m] == before[m]);
            }
        }
        k = k + 1;
    }
    Step::Done(Ok(result))
}

/// The text of a reply, empty for a failure.
fn text_of(reply: &Reply) -> (r: String)
    ensures
        r@ == text_or_empty(reply_view(*reply)),
{
    match reply {
        Ok(s) => s.clone(),
        Err(_) => String::new(),
    }
}

/// The rows of the lines `ls` of a device listing: the words of each line
/// that has at least two.
pub open spec fn device_rows_of(ls: Seq<Seq<char>>) -> Seq<Seq<Seq<char>>>
    decreases ls.len(),
{
    if ls.len() == 0 {
        seq![]
    } else if words(ls.last()).len() >= 2 {
        device_rows_of(ls.drop_last()).push(words(ls.last()))
    } else {
        device_rows_of(ls.drop_last())
    }
}

/// The rows of a `devices -l` listing, its header line left out.
pub open spec fn device_rows(out: Seq<char>) -> Seq<Seq<Seq<char>>> {
    if lines(out).len() > 0 {
        device_rows_of(lines(out).skip(1))
    } else {
        seq![]
    }
}

/// The last word of a row that starts with `model:`.
pub open spec fn model_word(ws: Seq<Seq<char>>) -> Option<Seq<char>>
    decreases ws.len(),
{
    if ws.len() == 0 {
        None
    } else if starts_with(ws.last(), "model:"@) {
        Some(ws.last())
    } else {
        model_word(ws.drop_last())
    }
}

/// The model a row names, its underscores read as spaces.
pub open spec fn model_of(ws: Seq<Seq<char>>) -> Seq<char> {
    match model_word(ws) {
        Some(w) => replace_all(replace_all(w, "model:"@, ""@), "_"@, " "@),
        None => "Unknown Device"@,
    }
}

/// How many of the first `i` rows are devices in state `device`.
pub open spec fn rank(rows: Seq<Seq<Seq<char>>>, i: int) -> int
    decreases i,
{
    if i <= 0 {
        0
    } else {
        rank(rows, i - 1) + if rows[i - 1][1] == "device"@ {
            1int
        } else {
            0int
        }
    }
}

/// A reply to `which su` that shows a `su` binary.
pub open spec fn shows_su(reply: Result<Seq<char>, Seq<char>>) -> bool {
    reply matches Ok(out) && trim(out).len() > 0 && !contains(out, "not found"@)
}

/// `d` is the device of row `ws`, the `k`-th device in state `device`.
pub open spec fn device_of_row(d: DeviceInfo, ws: Seq<Seq<char>>, replies: Seq<Reply>, k: int) -> bool {
    &&& d.id@ == ws[0]
    &&& d.state@ == ws[1]
    &&& d.model@ == model_of(ws)
    &&& d.authorized == (ws[1] == "device"@)
    &&& d.is_rooted == (ws[1] == "device"@ && shows_su(reply_view(replies[1 + k])))
}

pub open spec fn rows_view(rows: Seq<Vec<Vec<char>>>) -> Seq<Seq<Seq<char>>> {
    rows.map_values(|r: Vec<Vec<char>>| views(r@))
}

proof fn lemma_rank_grows(rows: Seq<Seq<Seq<char>>>, i: int, n: int)
    requires
        0 <= i <= n,
    ensures
        rank(rows, i) <= rank(rows, n),
    decreases n - i,
{
    if i < n {
        lemma_rank_grows(rows, i, n - 1);
    }
}

fn rows_listed(out: &str) -> (r: Vec<Vec<Vec<char>>>)
    ensures
        rows_view(r@) == device_rows(out@),
        forall|i: int| 0 <= i < r@.len() ==> #[trigger] r@[i]@.len() >= 2,
{
    let v = chars_of(out);
    let ls = lines_of(&v);
    let mut r: Vec<Vec<Vec<char>>> = Vec::new();
    if ls.len() == 0 {
        assert(rows_view(r@) =~= device_rows(out@));
        return r;
    }
    let ghost body = views(ls@).skip(1);
    let mut i: usize = 1;
    while i < ls.len()
        invariant
            1 <= i <= ls.len(),
            views(ls@) == lines(out@),
            body == views(ls@).skip(1),
            rows_view(r@) == device_rows_of(body.take(i - 1)),
            forall|j: int| 0 <= j < r@.len() ==> #[trigger] r@[j]@.len() >= 2,
        decreases ls.len() - i,
    {
        let ghost taken = body.take(i as int);
        assert(taken.drop_last() =~= body.take(i - 1));
        assert(taken.last() == ls@[i as int]@);
        let ws = words_of(&ls[i]);
        if ws.len() >= 2 {
            let ghost before = r@;
            r.push(ws);
            assert(rows_view(r@) =~= rows_view(before).push(views(ws@)));
        }
        i = i + 1;
    }
    assert(body.take(i - 1) =~= body);
    r
}

fn model_from_row(ws: &Vec<Vec<char>>) -> (m: String)
    ensures
        m@ == model_of(views(ws@)),
{
    let prefix = chars_of("model:");
    let mut k = ws.len();
    assert(views(ws@).take(k as int) =~= views(ws@));
    while k > 0
        invariant
            k <= ws.len(),
            prefix@ == "model:"@,
            model_word(views(ws@).take(k as int)) == model_word(views(ws@)),
        decreases k,
    {
        assert(views(ws@).take(k as int).last() == ws@[k - 1]@);
        if starts_with_exec(&ws[k - 1], &prefix) {
            proof {
                reveal_strlit("model:");
                reveal_strlit("_");
            }
            let a = replace_exec(&ws[k - 1], &prefix, &chars_of(""));
            let b = replace_exec(&a, &chars_of("_"), &chars_of(" "));
            return string_of(b.as_slice());
        }
        assert(views(ws@).take(k as int).drop_last() =~= views(ws@).take(k - 1));
        k = k - 1;
    }
    owned("Unknown Device")
}

fn su_shown(reply: &Reply) -> (b: bool)
    ensures
        b == shows_su(reply_view(*reply)),
{
    match reply {
        Ok(out) => {
            let v = chars_of(out.as_str());
            let (lo, hi) = crate::text::trim_bounds(&v, 0, v.len());
            assert(v@.subrange(0, v.len() as int) =~= v@);
            hi > lo && !contains_exec(&v, &chars_of("not found"))
        },
        Err(_) => false,
    }
}

/// The connected devices, given the replies so far: the listing first,
/// then for each device in state `device`, in order, a check for a `su`
/// binary that decides whether it counts as rooted.
pub fn get_devices(replies: &Vec<Reply>) -> (r: Step<Result<Vec<DeviceInfo>, String>>)
    ensures
        replies.len() == 0 ==> (r matches Step::Run(a) && string_views(a@) == seq![
            "devices"@,
            "-l"@,
        ]),
        replies.len() >= 1 && replies[0] is Err ==> (r matches Step::Done(x) && x is Err
            && x->Err_0@ == replies[0]->Err_0@),
        replies.len() >= 1 && replies[0] is Ok ==> ({
            let rows = device_rows(replies[0]->Ok_0@);
            &&& replies.len() - 1 < rank(rows, rows.len() as int) ==> (r matches Step::Run(a)
                && exists|i: int|
                0 <= i < rows.len() && rows[i][1] == "device"@ && rank(rows, i) == replies.len()
                    - 1 && string_views(a@) == seq!["-s"@, rows[i][0], "shell"@, "which"@, "su"@])
            &&& replies.len() - 1 >= rank(rows, rows.len() as int) ==> (r matches Step::Done(x)
                && x is Ok && x->Ok_0@.len() == rows.len() && forall|i: int|
                0 <= i < rows.len() ==> #[trigger] device_of_row(
                    x->Ok_0@[i],
                    rows[i],
                    replies@,
                    rank(rows, i),
                ))
        }),
{
    if replies.len() == 0 {
        let mut a: Vec<String> = Vec::new();
        a.push(owned("devices"));
        a.push(owned("-l"));
        assert(string_views(a@) =~= seq!["devices"@, "-l"@]);
        return Step::Run(a);
    }
    let out = match &replies[0] {
        Err(e) => {
            return Step::Done(Err(e.clone()));
        },
        Ok(out) => out,
    };
    let rows = rows_listed(out.as_str());
    let ghost rv = rows_view(rows@);
    let device = chars_of("device");
    let mut devices: Vec<DeviceInfo> = Vec::new();
    let mut c: usize = 0;
    let mut i: usize = 0;
    while i < rows.len()
        invariant
            i <= rows.len(),
            replies.len() >= 1,
            device@ == "device"@,
            rv == rows_view(rows@),
            rv == device_rows(replies[0]->Ok_0@),
            replies[0] is Ok,
            forall|j: int| 0 <= j < rows@.len() ==> #[trigger] rows@[j]@.len() >= 2,
            c as int == rank(rv, i as int),
            c < replies.len(),
            devices@.len() == i,
            forall|j: int|
                0 <= j < i ==> #[trigger] device_of_row(devices@[j], rv[j], replies@, rank(rv, j)),
        decreases rows.len() - i,
    {
        let ws = &rows[i];
        assert(rv[i as int] == views(ws@));
        assert(views(ws@)[0] == ws@[0]@ && views(ws@)[1] == ws@[1]@);
        let is_device = chars_equal(&ws[1], &device);
        let mut rooted = false;
        if is_device {
            if c + 1 < replies.len() {
                rooted = su_shown(&replies[c + 1]);
            } else {
                let a = strings5(
                    owned("-s"),
                    string_of(ws[0].as_slice()),
                    owned("shell"),
                    owned("which"),
                    owned("su"),
                );
                proof {
                    lemma_rank_grows(rv, i + 1, rv.len() as int);
                }
                return Step::Run(a);
            }
        }
        let d = DeviceInfo {
            id: string_of(ws[0].as_slice()),
            model: model_from_row(ws),
            authorized: is_device,
            state: string_of(ws[1].as_slice()),
            is_rooted: rooted,
        };
        assert(device_of_row(d, rv[i as int], replies@, rank(rv, i as int)));
        let ghost before = devices@;
        devices.push(d);
        assert forall|j: int| 0 <= j < i + 1 implies #[trigger] device_of_row(
            devices@[j],
            rv[j],
            replies@,
            rank(rv, j),
        ) by {
            if j < i {
                assert(devices@[j] == before[j]);
            }
        }
        if is_device {
            c = c + 1;
        }
        i = i + 1;
    }
    Step::Done(Ok(devices))
}

} // verus!
