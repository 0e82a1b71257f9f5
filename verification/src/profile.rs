//! `/profile`: saved configurations.

use vstd::prelude::*;

use crate::backends;
use crate::text;

verus! {

/// What a `/profile` command leads to.
#[derive(Debug)]
pub enum ProfileStep {
    /// The saved profiles are listed. `asked` says that the listing was asked
    /// for by name.
    List { name: String, asked: bool },
    /// The running state is saved under a name.
    Save(String),
    /// A profile is shown. The running state stands in for it where
    /// `running` is set, or where `running_if_none` is set and no profile is
    /// saved.
    Show { name: String, running: bool, running_if_none: bool },
    /// A profile is loaded.
    Load(String),
    /// These lines are shown.
    Say(Vec<String>),
}

/// The explanation of the command.
pub open spec fn usage_lines() -> Seq<Seq<char>> {
    seq![
        "Usage: /profile [save|show|load|list] [name]"@,
        "  save <name>  — save current config as a profile"@,
        "  show [name]  — display a profile as JSON (or 'current' for running state)"@,
        "  load <name>  — load a profile (use /chat, /embed, /memory to apply)"@,
        "  list         — list saved profiles"@,
    ]
}

/// What a `/profile` command leads to.
pub open spec fn profile_step(args: Seq<char>, r: ProfileStep) -> bool {
    let w = text::words_of(args);
    let sub = text::word_at(w, 0);
    let name = backends::or_default(text::word_get(w, 1), "default"@);
    if sub.len() == 0 || sub == "list"@ {
        r matches ProfileStep::List { name: n, asked } && n@ == name && asked == (sub.len() > 0)
    } else if sub == "save"@ {
        r matches ProfileStep::Save(n) && n@ == name
    } else if sub == "show"@ {
        r matches ProfileStep::Show { name: n, running, running_if_none } && n@ == name && running
            == (name == "current"@) && running_if_none == (w.len() <= 2 && name == "default"@)
    } else if sub == "load"@ {
        r matches ProfileStep::Load(n) && n@ == name
    } else {
        r matches ProfileStep::Say(v) && text::texts(v@) =~= usage_lines()
    }
}

/// The word behind `save`, `show`, `load` or `list` is the profile that is meant;
/// without one it is the default one. `current` is the running state.
pub proof fn law_profiles_are_meant_by_name(name: Seq<char>, r: ProfileStep)
    requires
        text::is_word(name),
    ensures
        profile_step("save"@ + " "@ + name, r) ==> (r matches ProfileStep::Save(n) && n@ == name),
        profile_step("load"@ + " "@ + name, r) ==> (r matches ProfileStep::Load(n) && n@ == name),
        profile_step("show"@ + " "@ + name, r) ==> (r matches ProfileStep::Show {
            name: n,
            running,
            running_if_none,
        } && n@ == name && (running <==> name == "current"@) && (running_if_none ==> name
            == "default"@)),
        profile_step("list"@ + " "@ + name, r) ==> (r matches ProfileStep::List { name: n, asked }
            && n@ == name && asked),
        profile_step("save"@, r) ==> (r matches ProfileStep::Save(n) && n@ == "default"@),
        profile_step("load"@, r) ==> (r matches ProfileStep::Load(n) && n@ == "default"@),
        profile_step("show"@, r) ==> (r matches ProfileStep::Show {
            name: n,
            running,
            running_if_none,
        } && n@ == "default"@ && !running && running_if_none),
        profile_step(Seq::empty(), r) ==> (r matches ProfileStep::List { asked, .. } && !asked),
        profile_step("list"@, r) ==> (r matches ProfileStep::List { name: n, asked } && n@
            == "default"@ && asked),
        profile_step("show"@ + " "@ + "default"@, r) ==> (r matches ProfileStep::Show {
            running,
            running_if_none,
            ..
        } && !running && running_if_none),
        profile_step("show"@ + " "@ + name + " "@ + name, r) ==> (r matches ProfileStep::Show {
            name: n,
            running_if_none,
            ..
        } && n@ == name && !running_if_none),
{
    reveal_strlit("save");
    reveal_strlit("load");
    reveal_strlit("show");
    reveal_strlit("list");
    reveal_strlit("current");
    reveal_strlit("default");
    assert("save"@[1] == 'a' && "load"@[0] == 'l' && "show"@[1] == 'h' && "list"@[1] == 'i'
        && "load"@[1] == 'o');
    assert("current"@[0] != "default"@[0]);
    text::lemma_few_words("save"@, name, Seq::empty());
    text::lemma_few_words("load"@, name, Seq::empty());
    text::lemma_few_words("show"@, name, name);
    text::lemma_few_words("show"@, "default"@, Seq::empty());
    text::lemma_few_words("list"@, name, Seq::empty());
    text::law_words_are_read_back(Seq::empty());
    assert(text::joined(Seq::<Seq<char>>::empty(), " "@) =~= Seq::<char>::empty());
}

/// `/profile [save|show|load|list] [name]`.
pub fn cmd_profile(args: &str) -> (r: ProfileStep)
    ensures
        profile_step(args@, r),
{
    let w = text::words(args);
    let sub = text::word(&w, 0);
    let name = match text::word_opt(&w, 1) {
        Some(n) => n,
        None => "default".to_string(),
    };
    if sub.as_str().is_empty() {
        return ProfileStep::List { name, asked: false };
    }
    if text::same(sub.as_str(), "list") {
        return ProfileStep::List { name, asked: true };
    }
    if text::same(sub.as_str(), "save") {
        return ProfileStep::Save(name);
    }
    if text::same(sub.as_str(), "show") {
        let running = text::same(name.as_str(), "current");
        let running_if_none = w.len() <= 2 && text::same(name.as_str(), "default");
        return ProfileStep::Show { name, running, running_if_none };
    }
    if text::same(sub.as_str(), "load") {
        return ProfileStep::Load(name);
    }
    ProfileStep::Say(
        vec![
            "Usage: /profile [save|show|load|list] [name]".to_string(),
            "  save <name>  — save current config as a profile".to_string(),
            "  show [name]  — display a profile as JSON (or 'current' for running state)".to_string(),
            "  load <name>  — load a profile (use /chat, /embed, /memory to apply)".to_string(),
            "  list         — list saved profiles".to_string(),
        ],
    )
}

/// Whether `/profile show` shows the running state, given the number of saved
/// profiles.
pub open spec fn shows_running(running: bool, running_if_none: bool, saved: nat) -> bool {
    running || (running_if_none && saved == 0)
}

/// The running state is shown where it was asked for; otherwise only a saved
/// profile can be shown, unless there is none and none was named.
pub proof fn law_the_running_state_is_shown_on_request(running_if_none: bool, saved: nat)
    ensures
        shows_running(true, running_if_none, saved),
        saved > 0 ==> !shows_running(false, running_if_none, saved),
        shows_running(false, running_if_none, 0) <==> running_if_none,
{
}

/// Whether `/profile show` shows the running state, given the number of saved
/// profiles.
pub fn shows_running_state(running: bool, running_if_none: bool, saved: usize) -> (r: bool)
    ensures
        r == shows_running(running, running_if_none, saved as nat),
{
    running || (running_if_none && saved == 0)
}

/// One line of the list of profiles: the one that was asked for has a mark, and
/// so has the only one where none was asked for.
pub open spec fn profile_line(
    profile: Seq<char>,
    name: Seq<char>,
    asked: bool,
    count: nat,
) -> Seq<char> {
    "  "@ + profile + (if profile == name || (count == 1 && !asked) {
        " *"@
    } else {
        Seq::empty()
    })
}

/// The list of profiles.
pub open spec fn list_lines(
    profiles: Seq<Seq<char>>,
    name: Seq<char>,
    asked: bool,
) -> Seq<Seq<char>> {
    if profiles.len() == 0 {
        seq!["No saved profiles. Use /profile save <name> to create one."@]
    } else {
        let rows = seq!["Saved profiles:"@] + Seq::new(
            profiles.len(),
            |i: int| profile_line(profiles[i], name, asked, profiles.len()),
        );
        if !profiles.contains(name) && asked {
            rows.push("  (profile '"@ + name + "' not found)"@)
        } else {
            rows
        }
    }
}

/// Every profile has a line, in their order; the one that was asked for is marked,
/// and where there is none of that name, the last line says so.
pub proof fn law_every_profile_is_listed(
    profiles: Seq<Seq<char>>,
    name: Seq<char>,
    asked: bool,
    i: int,
)
    requires
        0 <= i < profiles.len(),
    ensures
        ({
            let lines = list_lines(profiles, name, asked);
            &&& lines.len() == profiles.len() + (if asked && !profiles.contains(name) {
                2int
            } else {
                1
            })
            &&& profiles[i] == name ==> lines[i + 1] == "  "@ + profiles[i] + " *"@
            &&& profiles[i] != name && (asked || profiles.len() > 1) ==> lines[i + 1] == "  "@
                + profiles[i]
            &&& profiles.len() == 1 && !asked ==> lines[i + 1] == "  "@ + profiles[i] + " *"@
        }),
{
    let lines = list_lines(profiles, name, asked);
    assert(lines[i + 1] == profile_line(profiles[i], name, asked, profiles.len()));
    assert("  "@ + profiles[i] + Seq::<char>::empty() =~= "  "@ + profiles[i]);
}

/// The list of profiles.
pub fn list_profiles(profiles: &Vec<String>, name: &str, asked: bool) -> (r: Vec<String>)
    ensures
        text::texts(r@) == list_lines(text::texts(profiles@), name@, asked),
{
    let ghost all = text::texts(profiles@);
    let mut out: Vec<String> = Vec::new();
    if profiles.len() == 0 {
        out.push("No saved profiles. Use /profile save <name> to create one.".to_string());
        assert(text::texts(out@) =~= list_lines(all, name@, asked));
        return out;
    }
    out.push("Saved profiles:".to_string());
    let ghost rows = seq!["Saved profiles:"@] + Seq::new(
        all.len(),
        |i: int| profile_line(all[i], name@, asked, all.len()),
    );
    let mut i: usize = 0;
    while i < profiles.len()
        invariant
            i <= profiles@.len(),
            all == text::texts(profiles@),
            rows == seq!["Saved profiles:"@] + Seq::new(
                all.len(),
                |i: int| profile_line(all[i], name@, asked, all.len()),
            ),
            out@.len() == i + 1,
            forall|j: int| 0 <= j < out@.len() ==> (#[trigger] out@[j])@ == rows[j],
        decreases profiles@.len() - i,
    {
        let mut m = "  ".to_string();
        m.append(profiles[i].as_str());
        let mut mark = String::new();
        if text::same(profiles[i].as_str(), name) || (profiles.len() == 1 && !asked) {
            mark = " *".to_string();
        }
        m.append(mark.as_str());
        assert(rows[i + 1] == profile_line(all[i as int], name@, asked, all.len()));
        out.push(m);
        i += 1;
    }
    assert(text::texts(out@) =~= rows);
    if asked && !text::contains(profiles, name) {
        let mut m = "  (profile '".to_string();
        m.append(name);
        m.append("' not found)");
        let ghost v = m@;
        out.push(m);
        assert(text::texts(out@) =~= rows.push(v));
    }
    out
}

} // verus!
