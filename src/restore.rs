//! The restore orchestrator: reinstalls a package from an extracted archive
//! container, pushes its OBB files back and, where the device grants root,
//! puts its private data back in place.
//!
//! The container is extracted and inspected by the caller, which hands the
//! layout it found to `Restore::new`. From there the restore is a state
//! machine over bridge commands: `pending` names the next command or the
//! result, `step` takes the command's reply.
use vstd::prelude::*;
use crate::text::{
    contains, ends_with, chars_of, contains_exec, ends_with_exec, cat, string_views,
};
use crate::transport::{
    Reply, Step, reply_view, owned, bridge_args, strings3, strings4,
};

verus! {

/// What an extracted container holds, as far as a restore needs to know.
pub struct ExtractedBackup {
    /// The local directory the container was extracted into.
    pub staging: String,
    /// The file names in `apks/`, when that directory exists.
    pub apk_dir_files: Option<Vec<String>>,
    /// Whether a legacy `base.apk` stands at the container's root.
    pub has_legacy_apk: bool,
    /// The regular files in `obb/`, when that directory exists.
    pub obb_files: Option<Vec<String>>,
    /// The package name that `metadata.json` gives, if any.
    pub package_name: Option<String>,
    /// Whether `metadata.json` declares a data archive.
    pub declares_data: bool,
    /// Whether `data.tar.gz` exists.
    pub has_data_archive: bool,
}

pub enum RestoreStage {
    Installing,
    MakingObbDir,
    PushingObb(usize),
    ProbingRoot,
    PushingData,
    Extracting,
    Chowning,
    Relabeling,
    RemovingRemote,
    Done,
}

/// A restore in progress.
pub struct Restore {
    pub device_id: String,
    pub layout: ExtractedBackup,
    /// The local APK files to install.
    pub apks: Vec<String>,
    pub stage: RestoreStage,
    pub result: Result<String, String>,
}

pub open spec fn is_apk_name(f: Seq<char>) -> bool {
    f.len() > 4 && ends_with(f, ".apk"@)
}

/// The names among `names` with the extension `apk`.
pub open spec fn apk_files_in(names: Seq<Seq<char>>) -> Seq<Seq<char>>
    decreases names.len(),
{
    if names.len() == 0 {
        seq![]
    } else if is_apk_name(names.last()) {
        apk_files_in(names.drop_last()).push(names.last())
    } else {
        apk_files_in(names.drop_last())
    }
}

impl ExtractedBackup {
    /// The APKs of the modern `apks/` directory, as local paths.
    pub open spec fn modern_sources(&self) -> Seq<Seq<char>> {
        match self.apk_dir_files {
            Some(v) => apk_files_in(string_views(v@)).map_values(
                |f: Seq<char>| self.staging@ + "/apks/"@ + f,
            ),
            None => seq![],
        }
    }

    /// What to install, decided by the container's structure: the APKs of
    /// `apks/` when there are any, else a legacy root `base.apk`, else none.
    pub open spec fn install_sources(&self) -> Seq<Seq<char>> {
        if self.modern_sources().len() > 0 {
            self.modern_sources()
        } else if self.has_legacy_apk {
            seq![self.staging@ + "/base.apk"@]
        } else {
            seq![]
        }
    }

    pub open spec fn known_name(&self) -> bool {
        self.package_name matches Some(n) && n@.len() > 0
    }

    pub open spec fn name(&self) -> Seq<char> {
        self.package_name->0@
    }

    pub open spec fn wants_obb(&self) -> bool {
        self.obb_files is Some && self.known_name()
    }

    pub open spec fn wants_data(&self) -> bool {
        self.declares_data && self.has_data_archive && self.known_name()
    }

    pub open spec fn obb_count(&self) -> nat {
        match self.obb_files {
            Some(v) => v.len() as nat,
            None => 0,
        }
    }

    pub open spec fn obb_file(&self, i: int) -> Seq<char> {
        self.obb_files->0@[i]@
    }
}

pub open spec fn obb_target_of(name: Seq<char>) -> Seq<char> {
    "/sdcard/Android/obb/"@ + name + "/"@
}

pub open spec fn remote_data_tar() -> Seq<char> {
    "/sdcard/easyadb_restore_data.tar.gz"@
}

pub open spec fn completed() -> Result<Seq<char>, Seq<char>> {
    Ok("Restore completed"@)
}

impl Restore {
    pub open spec fn wf(&self) -> bool {
        &&& self.stage is Installing ==> self.apks@.len() >= 1
        &&& self.stage matches RestoreStage::PushingObb(i) ==> self.layout.obb_files is Some && i
            < self.layout.obb_count()
        &&& (self.stage is MakingObbDir || self.stage is PushingObb) ==> self.layout.wants_obb()
        &&& (self.stage is ProbingRoot || self.stage is PushingData || self.stage is Extracting
            || self.stage is Chowning || self.stage is Relabeling) ==> self.layout.wants_data()
    }

    pub open spec fn bridge(&self, rest: Seq<Seq<char>>) -> Seq<Seq<char>> {
        seq!["-s"@, self.device_id@] + rest
    }

    /// The install command for the APKs: a single reinstall for one, an
    /// atomic multi-APK install for several.
    pub open spec fn install_command(&self) -> Seq<Seq<char>> {
        let srcs = string_views(self.apks@);
        if srcs.len() == 1 {
            self.bridge(seq!["install"@, "-r"@, srcs[0]])
        } else {
            self.bridge(seq!["install-multiple"@, "-r"@] + srcs)
        }
    }

    /// Where the restore goes once the APKs are installed.
    pub open spec fn after_install(&self) -> RestoreStage {
        if self.layout.wants_obb() {
            RestoreStage::MakingObbDir
        } else {
            self.after_obb()
        }
    }

    pub open spec fn after_obb(&self) -> RestoreStage {
        if self.layout.wants_data() {
            RestoreStage::ProbingRoot
        } else {
            RestoreStage::Done
        }
    }

    pub open spec fn next_stage(&self, o: Result<Seq<char>, Seq<char>>) -> RestoreStage {
        match self.stage {
            RestoreStage::Installing => match o {
                Ok(out) => if contains(out, "Success"@) {
                    self.after_install()
                } else {
                    RestoreStage::Done
                },
                Err(_) => RestoreStage::Done,
            },
            RestoreStage::MakingObbDir => if self.layout.obb_count() > 0 {
                RestoreStage::PushingObb(0)
            } else {
                self.after_obb()
            },
            RestoreStage::PushingObb(i) => if o is Err {
                RestoreStage::Done
            } else if i + 1 < self.layout.obb_count() {
                RestoreStage::PushingObb((i + 1) as usize)
            } else {
                self.after_obb()
            },
            RestoreStage::ProbingRoot => if o is Ok {
                RestoreStage::PushingData
            } else {
                RestoreStage::Done
            },
            RestoreStage::PushingData => if o is Ok {
                RestoreStage::Extracting
            } else {
                RestoreStage::Done
            },
            RestoreStage::Extracting => if o is Ok {
                RestoreStage::Chowning
            } else {
                RestoreStage::Done
            },
            RestoreStage::Chowning => RestoreStage::Relabeling,
            RestoreStage::Relabeling => RestoreStage::RemovingRemote,
            RestoreStage::RemovingRemote => RestoreStage::Done,
            RestoreStage::Done => RestoreStage::Done,
        }
    }

    /// The result once the restore is over after outcome `o`.
    pub open spec fn next_result(&self, o: Result<Seq<char>, Seq<char>>) -> Result<
        Seq<char>,
        Seq<char>,
    > {
        match (self.stage, o) {
            (RestoreStage::Done, _) => reply_view(self.result),
            (RestoreStage::Installing, Ok(out)) => if contains(out, "Success"@) {
                completed()
            } else {
                Err("Install Failed: "@ + out)
            },
            (RestoreStage::Installing, Err(e)) => Err(e),
            (RestoreStage::PushingObb(_), Err(e)) => Err(e),
            (RestoreStage::PushingData, Err(e)) => Err(e),
            (RestoreStage::Extracting, Err(e)) => Err(e),
            _ => completed(),
        }
    }

    /// `a` is the step pending in the state `self`.
    pub open spec fn pending_is(&self, a: Step<Result<String, String>>) -> bool {
        let name = self.layout.name();
        match self.stage {
            RestoreStage::Installing => a matches Step::Run(args) && string_views(args@)
                == self.install_command(),
            RestoreStage::MakingObbDir => a matches Step::Run(args) && string_views(args@)
                == self.bridge(seq!["shell"@, "mkdir"@, "-p"@, obb_target_of(name)]),
            RestoreStage::PushingObb(i) => a matches Step::Run(args) && string_views(args@)
                == self.bridge(
                seq![
                    "push"@,
                    self.layout.staging@ + "/obb/"@ + self.layout.obb_file(i as int),
                    obb_target_of(name) + self.layout.obb_file(i as int),
                ],
            ),
            RestoreStage::ProbingRoot => a matches Step::Run(args) && string_views(args@)
                == self.bridge(seq!["shell"@, "su"@, "-c"@, "id"@]),
            RestoreStage::PushingData => a matches Step::Run(args) && string_views(args@)
                == self.bridge(
                seq!["push"@, self.layout.staging@ + "/data.tar.gz"@, remote_data_tar()],
            ),
            RestoreStage::Extracting => a matches Step::Run(args) && string_views(args@)
                == self.bridge(
                seq![
                    "shell"@,
                    "su"@,
                    "-c"@,
                    "tar -xzf "@ + remote_data_tar() + " -C /data/data"@,
                ],
            ),
            RestoreStage::Chowning => a matches Step::Run(args) && string_views(args@)
                == self.bridge(
                seq![
                    "shell"@,
                    "su"@,
                    "-c"@,
                    "chown -R $(stat -c '%u:%g' /data/data/"@ + name + "/.) /data/data/"@ + name,
                ],
            ),
            RestoreStage::Relabeling => a matches Step::Run(args) && string_views(args@)
                == self.bridge(seq!["shell"@, "su"@, "-c"@, "restorecon -R /data/data/"@ + name]),
            RestoreStage::RemovingRemote => a matches Step::Run(args) && string_views(args@)
                == self.bridge(seq!["shell"@, "rm"@, remote_data_tar()]),
            RestoreStage::Done => a matches Step::Done(r) && reply_view(r) == reply_view(
                self.result,
            ),
        }
    }
}

/// The names among `names` with the extension `apk`, each prefixed by `dir`.
fn apk_paths(dir: &str, names: &Vec<String>) -> (r: Vec<String>)
    ensures
        string_views(r@) == apk_files_in(string_views(names@)).map_values(
            |f: Seq<char>| dir@ + f,
        ),
{
    let suffix = chars_of(".apk");
    let mut r: Vec<String> = Vec::new();
    let mut i: usize = 0;
    while i < names.len()
        invariant
            i <= names.len(),
            suffix@ == ".apk"@,
            string_views(r@) == apk_files_in(string_views(names@).take(i as int)).map_values(
                |f: Seq<char>| dir@ + f,
            ),
        decreases names.len() - i,
    {
        let ghost all = string_views(names@);
        let f = &names[i];
        assert(all.take(i + 1).drop_last() =~= all.take(i as int));
        assert(all.take(i + 1).last() == f@);
        let v = chars_of(f.as_str());
        if v.len() > 4 && ends_with_exec(&v, &suffix) {
            let ghost before = r@;
            r.push(cat(dir, f.as_str()));
            assert(string_views(r@) =~= string_views(before).push(dir@ + f@));
            assert(apk_files_in(all.take(i + 1)).map_values(|f: Seq<char>| dir@ + f)
                =~= apk_files_in(all.take(i as int)).map_values(|f: Seq<char>| dir@ + f).push(
                dir@ + f@,
            ));
        }
        i = i + 1;
    }
    assert(string_views(names@).take(names.len() as int) =~= string_views(names@));
    r
}

/// `[a, b]` followed by `rest`.
fn prefixed_args(a: String, b: String, rest: &Vec<String>) -> (r: Vec<String>)
    ensures
        string_views(r@) == seq![a@, b@] + string_views(rest@),
{
    let mut r: Vec<String> = Vec::new();
    r.push(a);
    r.push(b);
    let mut i: usize = 0;
    assert(string_views(r@) =~= seq![a@, b@] + string_views(rest@).take(0));
    while i < rest.len()
        invariant
            i <= rest.len(),
            string_views(r@) == seq![a@, b@] + string_views(rest@).take(i as int),
        decreases rest.len() - i,
    {
        let ghost before = r@;
        r.push(rest[i].clone());
        assert(string_views(r@) =~= string_views(before).push(rest@[i as int]@));
        assert(string_views(rest@).take(i + 1) =~= string_views(rest@).take(i as int).push(
            rest@[i as int]@,
        ));
        i = i + 1;
    }
    assert(string_views(rest@).take(rest.len() as int) =~= string_views(rest@));
    r
}

fn copy_reply(r: &Result<String, String>) -> (c: Result<String, String>)
    ensures
        reply_view(c) == reply_view(*r),
{
    match r {
        Ok(m) => Ok(m.clone()),
        Err(e) => Err(e.clone()),
    }
}

impl Restore {
    /// A restore to device `device_id` of the extracted container `layout`.
    /// When the container holds no APK to install, the restore is over at
    /// once with a structural error, before any command.
    pub fn new(device_id: &str, layout: ExtractedBackup) -> (r: Restore)
        ensures
            r.wf(),
            r.device_id@ == device_id@,
            r.layout == layout,
            string_views(r.apks@) == layout.install_sources(),
            layout.install_sources().len() > 0 ==> r.stage is Installing,
            layout.install_sources().len() == 0 ==> r.stage is Done && reply_view(r.result)
                == Err::<Seq<char>, Seq<char>>("Invalid backup structure: No APKs found"@),
    {
        let modern = match &layout.apk_dir_files {
            Some(files) => {
                let dir = cat(layout.staging.as_str(), "/apks/");
                apk_paths(dir.as_str(), files)
            },
            None => Vec::new(),
        };
        assert(string_views(modern@) == layout.modern_sources());
        if modern.len() > 0 {
            Restore {
                device_id: owned(device_id),
                layout,
                apks: modern,
                stage: RestoreStage::Installing,
                result: Ok(String::new()),
            }
        } else if layout.has_legacy_apk {
            let mut apks: Vec<String> = Vec::new();
            apks.push(cat(layout.staging.as_str(), "/base.apk"));
            assert(string_views(apks@) =~= layout.install_sources());
            Restore {
                device_id: owned(device_id),
                layout,
                apks,
                stage: RestoreStage::Installing,
                result: Ok(String::new()),
            }
        } else {
            let apks: Vec<String> = Vec::new();
            assert(string_views(apks@) =~= layout.install_sources());
            Restore {
                device_id: owned(device_id),
                layout,
                apks,
                stage: RestoreStage::Done,
                result: Err(owned("Invalid backup structure: No APKs found")),
            }
        }
    }

    fn run(&self, rest: Vec<String>) -> (a: Step<Result<String, String>>)
        ensures
            a matches Step::Run(args) && string_views(args@) == self.bridge(string_views(rest@)),
    {
        Step::Run(bridge_args(&self.device_id, rest))
    }

    fn package_name(&self) -> (n: String)
        requires
            self.layout.package_name is Some,
        ensures
            n@ == self.layout.name(),
    {
        match &self.layout.package_name {
            Some(n) => n.clone(),
            None => String::new(),
        }
    }

    /// The step pending in this state.
    pub fn pending(&self) -> (a: Step<Result<String, String>>)
        requires
            self.wf(),
        ensures
            self.pending_is(a),
    {
        match self.stage {
            RestoreStage::Installing => {
                if self.apks.len() == 1 {
                    self.run(strings3(owned("install"), owned("-r"), self.apks[0].clone()))
                } else {
                    self.run(prefixed_args(owned("install-multiple"), owned("-r"), &self.apks))
                }
            },
            RestoreStage::MakingObbDir => {
                let name = self.package_name();
                let head = cat("/sdcard/Android/obb/", name.as_str());
                let target = cat(head.as_str(), "/");
                self.run(strings4(owned("shell"), owned("mkdir"), owned("-p"), target))
            },
            RestoreStage::PushingObb(i) => {
                let name = self.package_name();
                let head = cat("/sdcard/Android/obb/", name.as_str());
                let target = cat(head.as_str(), "/");
                let f = match &self.layout.obb_files {
                    Some(files) => files[i].clone(),
                    None => String::new(),
                };
                assert(f@ == self.layout.obb_file(i as int));
                let dir = cat(self.layout.staging.as_str(), "/obb/");
                let src = cat(dir.as_str(), f.as_str());
                let dst = cat(target.as_str(), f.as_str());
                self.run(strings3(owned("push"), src, dst))
            },
            RestoreStage::ProbingRoot => {
                self.run(strings4(owned("shell"), owned("su"), owned("-c"), owned("id")))
            },
            RestoreStage::PushingData => {
                let src = cat(self.layout.staging.as_str(), "/data.tar.gz");
                self.run(
                    strings3(owned("push"), src, owned("/sdcard/easyadb_restore_data.tar.gz")),
                )
            },
            RestoreStage::Extracting => {
                let head = cat("tar -xzf ", "/sdcard/easyadb_restore_data.tar.gz");
                let cmd = cat(head.as_str(), " -C /data/data");
                self.run(strings4(owned("shell"), owned("su"), owned("-c"), cmd))
            },
            RestoreStage::Chowning => {
                let name = self.package_name();
                let a = cat("chown -R $(stat -c '%u:%g' /data/data/", name.as_str());
                let b = cat(a.as_str(), "/.) /data/data/");
                let cmd = cat(b.as_str(), name.as_str());
                self.run(strings4(owned("shell"), owned("su"), owned("-c"), cmd))
            },
            RestoreStage::Relabeling => {
                let name = self.package_name();
                let cmd = cat("restorecon -R /data/data/", name.as_str());
                self.run(strings4(owned("shell"), owned("su"), owned("-c"), cmd))
            },
            RestoreStage::RemovingRemote => {
                self.run(
                    strings3(owned("shell"), owned("rm"), owned("/sdcard/easyadb_restore_data.tar.gz")),
                )
            },
            RestoreStage::Done => Step::Done(copy_reply(&self.result)),
        }
    }

    fn wants_obb(&self) -> (b: bool)
        ensures
            b == self.layout.wants_obb(),
    {
        self.layout.obb_files.is_some() && match &self.layout.package_name {
            Some(n) => chars_of(n.as_str()).len() > 0,
            None => false,
        }
    }

    fn wants_data(&self) -> (b: bool)
        ensures
            b == self.layout.wants_data(),
    {
        self.layout.declares_data && self.layout.has_data_archive && match &self.layout.package_name {
            Some(n) => chars_of(n.as_str()).len() > 0,
            None => false,
        }
    }

    fn obb_count(&self) -> (n: usize)
        ensures
            n == self.layout.obb_count(),
    {
        match &self.layout.obb_files {
            Some(v) => v.len(),
            None => 0,
        }
    }

    /// Moves past the OBB files.
    fn finish_obb(&mut self)
        requires
            old(self).apks@.len() >= 1 || !(old(self).stage is Installing),
        ensures
            final(self).stage == old(self).after_obb(),
            final(self).device_id == old(self).device_id,
            final(self).layout == old(self).layout,
            final(self).apks == old(self).apks,
            reply_view(final(self).result) == completed(),
    {
        if self.wants_data() {
            self.stage = RestoreStage::ProbingRoot;
        } else {
            self.stage = RestoreStage::Done;
        }
        self.result = Ok(owned("Restore completed"));
    }

    /// Takes the reply to the pending command and moves to the next state.
    pub fn step(&mut self, o: Reply)
        requires
            old(self).wf(),
        ensures
            final(self).wf(),
            final(self).device_id == old(self).device_id,
            final(self).layout == old(self).layout,
            final(self).apks == old(self).apks,
            final(self).stage == old(self).next_stage(reply_view(o)),
            reply_view(final(self).result) == old(self).next_result(reply_view(o)),
    {
        match self.stage {
            RestoreStage::Installing => {
                match o {
                    Ok(out) => {
                        let v = chars_of(out.as_str());
                        if contains_exec(&v, &chars_of("Success")) {
                            if self.wants_obb() {
                                self.stage = RestoreStage::MakingObbDir;
                                self.result = Ok(owned("Restore completed"));
                            } else {
                                self.finish_obb();
                            }
                        } else {
                            self.result = Err(cat("Install Failed: ", out.as_str()));
                            self.stage = RestoreStage::Done;
                        }
                    },
                    Err(e) => {
                        self.result = Err(e);
                        self.stage = RestoreStage::Done;
                    },
                }
            },
            RestoreStage::MakingObbDir => {
                if self.obb_count() > 0 {
                    self.stage = RestoreStage::PushingObb(0);
                    self.result = Ok(owned("Restore completed"));
                } else {
                    self.finish_obb();
                }
            },
            RestoreStage::PushingObb(i) => {
                match o {
                    Ok(_) => {
                        if i + 1 < self.obb_count() {
                            self.stage = RestoreStage::PushingObb(i + 1);
                            self.result = Ok(owned("Restore completed"));
                        } else {
                            self.finish_obb();
                        }
                    },
                    Err(e) => {
                        self.result = Err(e);
                        self.stage = RestoreStage::Done;
                    },
                }
            },
            RestoreStage::ProbingRoot => {
                self.stage = if o.is_ok() {
                    RestoreStage::PushingData
                } else {
                    RestoreStage::Done
                };
                self.result = Ok(owned("Restore completed"));
            },
            RestoreStage::PushingData | RestoreStage::Extracting => {
                match o {
                    Ok(_) => {
                        self.stage = if matches!(self.stage, RestoreStage::PushingData) {
                            RestoreStage::Extracting
                        } else {
                            RestoreStage::Chowning
                        };
                        self.result = Ok(owned("Restore completed"));
                    },
                    Err(e) => {
                        self.result = Err(e);
                        self.stage = RestoreStage::Done;
                    },
                }
            },
            RestoreStage::Chowning => {
                self.stage = RestoreStage::Relabeling;
                self.result = Ok(owned("Restore completed"));
            },
            RestoreStage::Relabeling => {
                self.stage = RestoreStage::RemovingRemote;
                self.result = Ok(owned("Restore completed"));
            },
            RestoreStage::RemovingRemote => {
                self.stage = RestoreStage::Done;
                self.result = Ok(owned("Restore completed"));
            },
            RestoreStage::Done => {},
        }
    }
}

/// An install whose reply lacks the success marker fails the restore: it
/// ends at once with "Install Failed" and the reply's text, and so does a
/// failed install command. The pending install command is the one that
/// installs every APK of the container.
pub proof fn lemma_install_needs_success_marker(s: Restore, o: Result<Seq<char>, Seq<char>>)
    requires
        s.stage is Installing,
        !(o matches Ok(out) && contains(out, "Success"@)),
    ensures
        s.next_stage(o) is Done,
        s.next_result(o) is Err,
        o matches Ok(out) ==> s.next_result(o) == Err::<Seq<char>, Seq<char>>(
            "Install Failed: "@ + out,
        ),
{
}

/// A container with neither an APK in `apks/` nor a legacy root APK has
/// nothing to install: `Restore::new` then ends the restore with a
/// structural error before any command.
pub proof fn lemma_no_apk_no_install(layout: ExtractedBackup)
    requires
        layout.modern_sources().len() == 0,
        !layout.has_legacy_apk,
    ensures
        layout.install_sources().len() == 0,
{
}

/// Round trip: the APK files that a backup stores under `apks/` (names that
/// carry the `apk` extension) are, once extracted, exactly the files the
/// restore installs, in the same order; and the install is then judged by
/// its success marker alone (`lemma_install_needs_success_marker`).
pub proof fn lemma_round_trip_installs_every_apk(names: Seq<Seq<char>>)
    requires
        forall|i: int| 0 <= i < names.len() ==> #[trigger] is_apk_name(names[i]),
    ensures
        apk_files_in(names) == names,
    decreases names.len(),
{
    if names.len() > 0 {
        assert forall|i: int| 0 <= i < names.drop_last().len() implies #[trigger] is_apk_name(
            names.drop_last()[i],
        ) by {
            assert(names.drop_last()[i] == names[i]);
        }
        lemma_round_trip_installs_every_apk(names.drop_last());
        assert(is_apk_name(names[names.len() - 1]));
        assert(names.drop_last().push(names.last()) =~= names);
    }
}

} // verus!
