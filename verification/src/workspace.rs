//! Workspace Modes (Pro tier).
//!
//! A profile is a named bundle of system actions (launch or quit apps, set
//! the wallpaper or the volume, mute, Do Not Disturb, run a command).
//! Applying a profile runs its actions in order; a failing action becomes a
//! warning, not an error. Three built-in profiles ship with the app.

use vstd::prelude::*;
use vstd::string::StringExecFns;

use crate::clipboard::new_uuid;
use crate::text::{chars_of, owned, same_text, string_from_range};

verus! {

#[derive(Clone, Copy, Debug, PartialEq, Eq, Structural)]
pub enum ProfileActionKind {
    LaunchApp,
    KillApp,
    SetWallpaper,
    SetVolume,
    Mute,
    DoNotDisturb,
    RunCommand,
}

#[derive(Debug)]
pub struct ProfileAction {
    pub kind: ProfileActionKind,
    /// Executable path/name, wallpaper path, level ("0.0"-"1.0"), or command.
    pub value: String,
}

#[derive(Debug)]
pub struct WorkspaceProfile {
    pub id: String,
    pub name: String,
    /// Icon key resolved by the UI ("moon", "radio", "code", ...).
    pub icon: String,
    pub actions: Vec<ProfileAction>,
    pub builtin: bool,
}

#[derive(Debug)]
pub struct ProfilesDto {
    pub profiles: Vec<WorkspaceProfile>,
    pub active_id: Option<String>,
}

pub struct ProfileView {
    pub id: Seq<char>,
    pub name: Seq<char>,
    pub icon: Seq<char>,
    pub actions: Seq<(ProfileActionKind, Seq<char>)>,
    pub builtin: bool,
}

impl View for ProfileAction {
    type V = (ProfileActionKind, Seq<char>);

    open spec fn view(&self) -> (ProfileActionKind, Seq<char>) {
        (self.kind, self.value@)
    }
}

impl View for WorkspaceProfile {
    type V = ProfileView;

    open spec fn view(&self) -> ProfileView {
        ProfileView {
            id: self.id@,
            name: self.name@,
            icon: self.icon@,
            actions: self.actions@.map_values(|a: ProfileAction| a@),
            builtin: self.builtin,
        }
    }
}

// ---------------------------------------------------------------------------
// Built-in profiles
// ---------------------------------------------------------------------------

pub open spec fn act(kind: ProfileActionKind, value: Seq<char>) -> (ProfileActionKind, Seq<char>) {
    (kind, value)
}

pub open spec fn builtin_spec() -> Seq<ProfileView> {
    seq![
        ProfileView {
            id: "p-focus"@,
            name: "Focus"@,
            icon: "moon"@,
            actions: seq![
                act(ProfileActionKind::KillApp, "Discord.exe"@),
                act(ProfileActionKind::KillApp, "Telegram.exe"@),
                act(ProfileActionKind::DoNotDisturb, "true"@),
                act(ProfileActionKind::SetVolume, "0.2"@),
            ],
            builtin: true,
        },
        ProfileView {
            id: "p-stream"@,
            name: "Streaming"@,
            icon: "radio"@,
            actions: seq![
                act(ProfileActionKind::LaunchApp, "obs64.exe"@),
                act(ProfileActionKind::LaunchApp, "Discord.exe"@),
                act(ProfileActionKind::LaunchApp, "Streamlabs OBS.exe"@),
                act(ProfileActionKind::SetVolume, "0.6"@),
                act(ProfileActionKind::DoNotDisturb, "true"@),
            ],
            builtin: true,
        },
        ProfileView {
            id: "p-code"@,
            name: "Coding"@,
            icon: "code"@,
            actions: seq![
                act(ProfileActionKind::LaunchApp, "Code.exe"@),
                act(ProfileActionKind::LaunchApp, "WindowsTerminal.exe"@),
                act(ProfileActionKind::DoNotDisturb, "false"@),
                act(ProfileActionKind::SetVolume, "0.35"@),
            ],
            builtin: true,
        },
    ]
}

fn a(kind: ProfileActionKind, value: &str) -> (r: ProfileAction)
    ensures
        r@ == act(kind, value@),
{
    ProfileAction { kind, value: owned(value) }
}

fn profile(id: &str, name: &str, icon: &str, actions: Vec<ProfileAction>) -> (p: WorkspaceProfile)
    ensures
        p.id@ == id@,
        p.name@ == name@,
        p.icon@ == icon@,
        p.actions@ == actions@,
        p.builtin,
{
    WorkspaceProfile { id: owned(id), name: owned(name), icon: owned(icon), actions, builtin: true }
}

/// The profiles that ship with the app: Focus, Streaming and Coding.
pub fn builtin_profiles() -> (r: Vec<WorkspaceProfile>)
    ensures
        r@.map_values(|p: WorkspaceProfile| p@) == builtin_spec(),
{
    let mut focus: Vec<ProfileAction> = Vec::new();
    focus.push(a(ProfileActionKind::KillApp, "Discord.exe"));
    focus.push(a(ProfileActionKind::KillApp, "Telegram.exe"));
    focus.push(a(ProfileActionKind::DoNotDisturb, "true"));
    focus.push(a(ProfileActionKind::SetVolume, "0.2"));
    let mut stream: Vec<ProfileAction> = Vec::new();
    stream.push(a(ProfileActionKind::LaunchApp, "obs64.exe"));
    stream.push(a(ProfileActionKind::LaunchApp, "Discord.exe"));
    stream.push(a(ProfileActionKind::LaunchApp, "Streamlabs OBS.exe"));
    stream.push(a(ProfileActionKind::SetVolume, "0.6"));
    stream.push(a(ProfileActionKind::DoNotDisturb, "true"));
    let mut code: Vec<ProfileAction> = Vec::new();
    code.push(a(ProfileActionKind::LaunchApp, "Code.exe"));
    code.push(a(ProfileActionKind::LaunchApp, "WindowsTerminal.exe"));
    code.push(a(ProfileActionKind::DoNotDisturb, "false"));
    code.push(a(ProfileActionKind::SetVolume, "0.35"));
    let ghost fa = focus@;
    let ghost sa = stream@;
    let ghost ca = code@;
    let mut r: Vec<WorkspaceProfile> = Vec::new();
    r.push(profile("p-focus", "Focus", "moon", focus));
    r.push(profile("p-stream", "Streaming", "radio", stream));
    r.push(profile("p-code", "Coding", "code", code));
    proof {
        let b = builtin_spec();
        assert(fa.map_values(|x: ProfileAction| x@) =~= b[0].actions);
        assert(sa.map_values(|x: ProfileAction| x@) =~= b[1].actions);
        assert(ca.map_values(|x: ProfileAction| x@) =~= b[2].actions);
        assert(r@.map_values(|p: WorkspaceProfile| p@) =~= b);
    }
    r
}

// ---------------------------------------------------------------------------
// Saving and applying
// ---------------------------------------------------------------------------

/// The profile service's logic; storage and the system calls stay with the
/// caller, which hands in what it read and carries out what is decided.
pub struct WorkspaceService {}

/// The profiles of a listing: the stored profiles that could be read, in
/// stored order.
pub open spec fn readable(rows: Seq<Option<WorkspaceProfile>>) -> Seq<ProfileView>
    decreases rows.len(),
{
    if rows.len() == 0 {
        Seq::empty()
    } else {
        let r = readable(rows.drop_last());
        match rows.last() {
            Some(p) => r.push(p@),
            None => r,
        }
    }
}

/// The warnings of an application: for each action that failed, in order,
/// "`<Kind>` → `<error>`".
pub open spec fn warnings_spec(kinds: Seq<ProfileActionKind>, failures: Seq<Option<String>>) -> Seq<
    Seq<char>,
>
    decreases failures.len(),
{
    if failures.len() == 0 {
        Seq::empty()
    } else {
        let k = failures.len() - 1;
        let r = warnings_spec(kinds.take(k), failures.take(k));
        match failures[k] {
            Some(e) => r.push(kind_name(kinds[k]) + " → "@ + e@),
            None => r,
        }
    }
}

impl WorkspaceService {
    /// The listing: the readable stored profiles, in stored order (rows whose
    /// profile could not be read are left out), and the active profile's id.
    pub fn list(rows: Vec<Option<WorkspaceProfile>>, active_id: Option<String>) -> (d: ProfilesDto)
        ensures
            d.profiles@.map_values(|p: WorkspaceProfile| p@) == readable(rows@),
            d.active_id == active_id,
    {
        let ghost orig = rows@;
        let n = rows.len();
        let mut rows = rows;
        let mut kept: Vec<WorkspaceProfile> = Vec::new();
        let mut i: usize = 0;
        while rows.len() > 0
            invariant
                i <= n == orig.len(),
                rows@ == orig.skip(i as int),
                kept@.map_values(|p: WorkspaceProfile| p@) == readable(orig.take(i as int)),
            decreases rows.len(),
        {
            let r = rows.remove(0);
            proof {
                assert(r == orig[i as int]);
                assert(orig.take(i + 1).drop_last() =~= orig.take(i as int));
                assert(rows@ =~= orig.skip(i + 1));
            }
            let ghost pre = kept@;
            match r {
                Some(p) => {
                    kept.push(p);
                    proof {
                        assert(kept@.map_values(|p: WorkspaceProfile| p@) =~= pre.map_values(
                            |p: WorkspaceProfile| p@,
                        ).push(kept@[kept.len() - 1]@));
                    }
                },
                None => {},
            }
            i = i + 1;
        }
        assert(orig.take(n as int) =~= orig);
        ProfilesDto { profiles: kept, active_id }
    }

    /// Saving: a new profile (empty id) gets a fresh random id; every other
    /// field is kept.
    pub fn save(profile: WorkspaceProfile) -> (p: WorkspaceProfile)
        ensures
            profile.id@.len() == 0 ==> p.id@.len() == 36,
            profile.id@.len() != 0 ==> p.id@ == profile.id@,
            p.name == profile.name,
            p.icon == profile.icon,
            p.actions == profile.actions,
            p.builtin == profile.builtin,
    {
        let mut profile = profile;
        if profile.id.as_str().is_empty() {
            profile.id = new_uuid();
        }
        profile
    }

    /// The warnings of an application: `failures[i]` is the error of
    /// `actions[i]`, `None` when it succeeded. Failures are collected, not
    /// fatal.
    pub fn warnings(actions: &Vec<ProfileAction>, failures: &Vec<Option<String>>) -> (w: Vec<String>)
        requires
            actions.len() == failures.len(),
        ensures
            w@.map_values(|s: String| s@) == warnings_spec(
                actions@.map_values(|a: ProfileAction| a.kind),
                failures@,
            ),
    {
        let ghost kinds = actions@.map_values(|a: ProfileAction| a.kind);
        let mut w: Vec<String> = Vec::new();
        let mut i: usize = 0;
        while i < failures.len()
            invariant
                i <= failures.len() == actions.len(),
                kinds == actions@.map_values(|a: ProfileAction| a.kind),
                w@.map_values(|s: String| s@) == warnings_spec(
                    kinds.take(i as int),
                    failures@.take(i as int),
                ),
            decreases failures.len() - i,
        {
            proof {
                assert(kinds.take(i + 1).take(i as int) =~= kinds.take(i as int));
                assert(failures@.take(i + 1).take(i as int) =~= failures@.take(i as int));
            }
            let ghost pre = w@;
            match &failures[i] {
                Some(e) => {
                    let m = action_warning(actions[i].kind, e.as_str());
                    w.push(m);
                    proof {
                        assert(w@.map_values(|s: String| s@) =~= pre.map_values(|s: String| s@).push(
                            m@,
                        ));
                    }
                },
                None => {},
            }
            i = i + 1;
        }
        assert(kinds.take(i as int) =~= kinds);
        assert(failures@.take(i as int) =~= failures@);
        w
    }
}

/// What applying one action does on the system.
#[derive(Debug, PartialEq, Eq)]
pub enum ActionStep {
    Launch(String),
    Kill(String),
    /// The level text, to be read as a number and clamped to 0..=1.
    SetVolume(String),
    Mute(bool),
    SetWallpaper(String),
    DoNotDisturb(bool),
    RunCommand(String),
}

/// The system step for an action: its kind picks the step, its value is
/// the argument (`"true"` switches Mute and Do Not Disturb on, anything
/// else off).
pub fn action_step(action: &ProfileAction) -> (s: ActionStep)
    ensures
        match action.kind {
            ProfileActionKind::LaunchApp => s matches ActionStep::Launch(v) && v@ == action.value@,
            ProfileActionKind::KillApp => s matches ActionStep::Kill(v) && v@ == action.value@,
            ProfileActionKind::SetVolume => s matches ActionStep::SetVolume(v) && v@
                == action.value@,
            ProfileActionKind::Mute => s == ActionStep::Mute(action.value@ == "true"@),
            ProfileActionKind::SetWallpaper => s matches ActionStep::SetWallpaper(v) && v@
                == action.value@,
            ProfileActionKind::DoNotDisturb => s == ActionStep::DoNotDisturb(
                action.value@ == "true"@,
            ),
            ProfileActionKind::RunCommand => s matches ActionStep::RunCommand(v) && v@
                == action.value@,
        },
{
    let v = action.value.clone();
    match action.kind {
        ProfileActionKind::LaunchApp => ActionStep::Launch(v),
        ProfileActionKind::KillApp => ActionStep::Kill(v),
        ProfileActionKind::SetVolume => ActionStep::SetVolume(v),
        ProfileActionKind::Mute => {
            let c = chars_of(v.as_str());
            ActionStep::Mute(same_text(&c, "true"))
        },
        ProfileActionKind::SetWallpaper => ActionStep::SetWallpaper(v),
        ProfileActionKind::DoNotDisturb => {
            let c = chars_of(v.as_str());
            ActionStep::DoNotDisturb(same_text(&c, "true"))
        },
        ProfileActionKind::RunCommand => ActionStep::RunCommand(v),
    }
}

/// The debug name of an action kind.
pub open spec fn kind_name(k: ProfileActionKind) -> Seq<char> {
    match k {
        ProfileActionKind::LaunchApp => "LaunchApp"@,
        ProfileActionKind::KillApp => "KillApp"@,
        ProfileActionKind::SetWallpaper => "SetWallpaper"@,
        ProfileActionKind::SetVolume => "SetVolume"@,
        ProfileActionKind::Mute => "Mute"@,
        ProfileActionKind::DoNotDisturb => "DoNotDisturb"@,
        ProfileActionKind::RunCommand => "RunCommand"@,
    }
}

fn kind_text(k: ProfileActionKind) -> (s: &'static str)
    ensures
        s@ == kind_name(k),
{
    match k {
        ProfileActionKind::LaunchApp => "LaunchApp",
        ProfileActionKind::KillApp => "KillApp",
        ProfileActionKind::SetWallpaper => "SetWallpaper",
        ProfileActionKind::SetVolume => "SetVolume",
        ProfileActionKind::Mute => "Mute",
        ProfileActionKind::DoNotDisturb => "DoNotDisturb",
        ProfileActionKind::RunCommand => "RunCommand",
    }
}

/// The warning recorded for a failed action: "`<Kind>` → `<error>`".
pub fn action_warning(kind: ProfileActionKind, error: &str) -> (w: String)
    ensures
        w@ == kind_name(kind) + " → "@ + error@,
{
    String::from_str(kind_text(kind)).concat(" → ").concat(error)
}

/// The profile to apply: the first stored row with that id, if its profile
/// could be read; otherwise an error naming the id.
pub fn find_profile(rows: Vec<(String, Option<WorkspaceProfile>)>, id: &str) -> (r: Result<
    WorkspaceProfile,
    String,
>)
    ensures
        match r {
            Ok(p) => exists|i: int|
                0 <= i < rows.len() && (#[trigger] rows@[i]).0@ == id@ && (rows@[i].1 matches Some(
                    q,
                ) && q@ == p@) && forall|j: int| 0 <= j < i ==> (#[trigger] rows@[j]).0@ != id@,
            Err(m) => m@ == "profile not found: "@ + id@ && forall|i: int|
                0 <= i < rows.len() && (#[trigger] rows@[i]).0@ == id@ && (forall|j: int|
                    0 <= j < i ==> (#[trigger] rows@[j]).0@ != id@) ==> rows@[i].1 is None,
        },
{
    let n = rows.len();
    let mut i: usize = 0;
    while i < n && !same_text(&chars_of(rows[i].0.as_str()), id)
        invariant
            i <= n == rows.len(),
            forall|j: int| 0 <= j < i ==> (#[trigger] rows@[j]).0@ != id@,
        decreases n - i,
    {
        i = i + 1;
    }
    let m = String::from_str("profile not found: ").concat(id);
    if i == n {
        return Err(m);
    }
    assert(rows@[i as int].0@ == id@);
    let ghost orig = rows@;
    let mut rows = rows;
    let (_, p) = rows.remove(i);
    match p {
        Some(p) => {
            assert(orig[i as int].1 matches Some(q) && q@ == p@);
            Ok(p)
        },
        None => {
            assert forall|k: int|
                0 <= k < orig.len() && (#[trigger] orig[k]).0@ == id@ && (forall|j: int|
                    0 <= j < k ==> (#[trigger] orig[j]).0@ != id@) implies orig[k].1 is None by {
                if k > i {
                    assert(orig[i as int].0@ == id@);
                }
                if k < i {
                    assert(orig[k].0@ != id@);
                }
            }
            Err(m)
        },
    }
}

/// The process name `pkill` matches for an image name: the name without its
/// trailing `.exe` suffixes.
pub open spec fn process_stem(name: Seq<char>) -> Seq<char>
    decreases name.len(),
{
    if name.len() >= 4 && name.skip(name.len() - 4) == ".exe"@ {
        process_stem(name.take(name.len() - 4))
    } else {
        name
    }
}

/// `image_name.trim_end_matches(".exe")`.
pub fn process_name_of(image_name: &str) -> (s: String)
    ensures
        s@ == process_stem(image_name@),
{
    let v = chars_of(image_name);
    let ext = chars_of(".exe");
    let mut end = v.len();
    assert(v@.take(v.len() as int) =~= v@);
    proof {
        reveal_strlit(".exe");
    }
    while end >= 4 && v[end - 4] == ext[0] && v[end - 3] == ext[1] && v[end - 2] == ext[2] && v[end
        - 1] == ext[3]
        invariant
            end <= v.len(),
            v@ == image_name@,
            ext@ == ".exe"@,
            ext.len() == 4,
            process_stem(v@.take(end as int)) == process_stem(image_name@),
        decreases end,
    {
        proof {
            let t = v@.take(end as int);
            assert(t.skip(t.len() - 4) =~= ext@);
            assert(t.take(t.len() - 4) =~= v@.take(end - 4));
        }
        end = end - 4;
    }
    proof {
        let t = v@.take(end as int);
        if t.len() >= 4 {
            let s = t.skip(t.len() - 4);
            if s == ".exe"@ {
                assert(s[0] == ext@[0] && s[1] == ext@[1] && s[2] == ext@[2] && s[3] == ext@[3]);
                assert(v@[end - 4] == s[0]);
                assert(v@[end - 3] == s[1]);
                assert(v@[end - 2] == s[2]);
                assert(v@[end - 1] == s[3]);
            }
        }
        assert(v@.take(v.len() as int) =~= v@);
    }
    let r = string_from_range(&v, 0, end);
    assert(v@.subrange(0, end as int) =~= v@.take(end as int));
    r
}

// ---------------------------------------------------------------------------
// Laws of the built-in profiles
// ---------------------------------------------------------------------------

/// The built-in profiles are Focus, Streaming and Coding, in that order.
/// Applying Focus quits Discord and Telegram, turns Do Not Disturb on and sets
/// the volume to 0.2; Streaming launches OBS, Discord and Streamlabs OBS, sets
/// the volume to 0.6 and turns Do Not Disturb on; Coding launches VS Code and
/// Windows Terminal, turns Do Not Disturb off and sets the volume to 0.35.
pub proof fn lemma_builtin_actions()
    ensures
        builtin_spec().len() == 3,
        builtin_spec()[0].id == "p-focus"@ && builtin_spec()[0].name == "Focus"@,
        builtin_spec()[0].actions == seq![
            (ProfileActionKind::KillApp, "Discord.exe"@),
            (ProfileActionKind::KillApp, "Telegram.exe"@),
            (ProfileActionKind::DoNotDisturb, "true"@),
            (ProfileActionKind::SetVolume, "0.2"@),
        ],
        builtin_spec()[1].id == "p-stream"@ && builtin_spec()[1].name == "Streaming"@,
        builtin_spec()[1].actions == seq![
            (ProfileActionKind::LaunchApp, "obs64.exe"@),
            (ProfileActionKind::LaunchApp, "Discord.exe"@),
            (ProfileActionKind::LaunchApp, "Streamlabs OBS.exe"@),
            (ProfileActionKind::SetVolume, "0.6"@),
            (ProfileActionKind::DoNotDisturb, "true"@),
        ],
        builtin_spec()[2].id == "p-code"@ && builtin_spec()[2].name == "Coding"@,
        builtin_spec()[2].actions == seq![
            (ProfileActionKind::LaunchApp, "Code.exe"@),
            (ProfileActionKind::LaunchApp, "WindowsTerminal.exe"@),
            (ProfileActionKind::DoNotDisturb, "false"@),
            (ProfileActionKind::SetVolume, "0.35"@),
        ],
        forall|i: int| 0 <= i < 3 ==> (#[trigger] builtin_spec()[i]).builtin,
{
}

/// Applying Focus or Streaming switches Do Not Disturb on (their Do Not
/// Disturb action has the value "true", which `action_step` turns into
/// `DoNotDisturb(true)`), and applying Coding switches it off.
pub proof fn lemma_builtin_do_not_disturb()
    ensures
        exists|i: int|
            0 <= i < builtin_spec()[0].actions.len() && #[trigger] builtin_spec()[0].actions[i]
                == (ProfileActionKind::DoNotDisturb, "true"@),
        exists|i: int|
            0 <= i < builtin_spec()[1].actions.len() && #[trigger] builtin_spec()[1].actions[i]
                == (ProfileActionKind::DoNotDisturb, "true"@),
        forall|i: int|
            0 <= i < builtin_spec()[2].actions.len() && (#[trigger] builtin_spec()[2].actions[i]).0
                == ProfileActionKind::DoNotDisturb ==> builtin_spec()[2].actions[i].1 != "true"@,
{
    reveal_strlit("true");
    reveal_strlit("false");
    assert(builtin_spec()[0].actions[2] == (ProfileActionKind::DoNotDisturb, "true"@));
    assert(builtin_spec()[1].actions[4] == (ProfileActionKind::DoNotDisturb, "true"@));
    assert("false"@.len() != "true"@.len());
}

} // verus!
