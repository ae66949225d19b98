//! Decisions of the background service: where the login-autostart entry lives and
//! what it holds, and which overlay script is launched.
use vstd::prelude::*;
use crate::path::{join, join_spec};
use crate::text::{push_str, to_string};

verus! {

/// The text of the autostart desktop entry that starts the service at login.
pub open spec fn desktop_entry_spec(exe: Seq<char>) -> Seq<char> {
    "[Desktop Entry]\nType=Application\nName=urGlance\nComment=File preview daemon\nExec="@ + exe
        + "\nTerminal=false\nX-GNOME-Autostart-enabled=true\n"@
}

/// Builds the autostart desktop entry for the executable at `exe`.
pub fn desktop_entry(exe: &str) -> (r: String)
    ensures
        r@ == desktop_entry_spec(exe@),
{
    let mut r = to_string(
        "[Desktop Entry]\nType=Application\nName=urGlance\nComment=File preview daemon\nExec=",
    );
    push_str(&mut r, exe);
    push_str(&mut r, "\nTerminal=false\nX-GNOME-Autostart-enabled=true\n");
    r
}

/// The folder of login-autostart entries under the home folder `home`.
pub open spec fn autostart_dir_spec(home: Seq<char>) -> Seq<char> {
    join_spec(join_spec(home, ".config"@), "autostart"@)
}

/// The folder of login-autostart entries under the home folder `home`.
pub fn autostart_dir(home: &str) -> (r: String)
    ensures
        r@ == autostart_dir_spec(home@),
{
    let config = join(home, ".config");
    join(config.as_str(), "autostart")
}

/// The service's autostart entry under the home folder `home`.
pub fn autostart_file(home: &str) -> (r: String)
    ensures
        r@ == join_spec(autostart_dir_spec(home@), "urGlance.desktop"@),
{
    let dir = autostart_dir(home);
    join(dir.as_str(), "urGlance.desktop")
}

/// The overlay script launched when none of the candidates exists.
pub const DEFAULT_SCRIPT: &'static str = "scripts/urglance-overlay.py";

/// The places the overlay script is looked for, in order: next to the executable
/// when that place is known, then the fixed locations.
pub open spec fn script_candidates_spec(nearby: Option<Seq<char>>) -> Seq<Seq<char>> {
    let fixed = seq![
        "scripts/urglance-overlay.py"@,
        "../scripts/urglance-overlay.py"@,
        "/usr/local/bin/urglance-overlay"@,
        "/usr/lib/urglance/urglance-overlay.py"@,
    ];
    match nearby {
        Some(n) => seq![n] + fixed,
        None => fixed,
    }
}

/// The characters of an optional string.
pub open spec fn opt_view(o: Option<String>) -> Option<Seq<char>> {
    match o {
        Some(s) => Some(s@),
        None => None,
    }
}

/// The places the overlay script is looked for.
pub fn script_candidates(nearby: Option<String>) -> (v: Vec<String>)
    ensures
        v@.len() == script_candidates_spec(opt_view(nearby)).len(),
        forall|i: int|
            0 <= i < v@.len() ==> (#[trigger] v@[i])@ == script_candidates_spec(
                opt_view(nearby),
            )[i],
{
    let ghost nv = opt_view(nearby);
    let mut v: Vec<String> = Vec::new();
    match nearby {
        Some(n) => {
            v.push(n);
        },
        None => {},
    }
    v.push(to_string("scripts/urglance-overlay.py"));
    v.push(to_string("../scripts/urglance-overlay.py"));
    v.push(to_string("/usr/local/bin/urglance-overlay"));
    v.push(to_string("/usr/lib/urglance/urglance-overlay.py"));
    proof {
        let sc = script_candidates_spec(nv);
        assert(v@.len() == sc.len());
        assert forall|i: int| 0 <= i < v@.len() implies (#[trigger] v@[i])@ == sc[i] by {
            match nv {
                Some(n) => {
                    assert(sc[0] == n);
                    if i > 0 {
                        assert(sc[i] == seq![
                            "scripts/urglance-overlay.py"@,
                            "../scripts/urglance-overlay.py"@,
                            "/usr/local/bin/urglance-overlay"@,
                            "/usr/lib/urglance/urglance-overlay.py"@,
                        ][i - 1]);
                    }
                },
                None => {},
            }
        }
    }
    v
}

/// The script to launch: the first candidate that exists, else the default.
pub open spec fn chosen_script_spec(candidates: Seq<Seq<char>>, exists: Seq<bool>) -> Seq<char>
    decreases candidates.len(),
{
    if candidates.len() == 0 || exists.len() == 0 {
        DEFAULT_SCRIPT@
    } else if exists[0] {
        candidates[0]
    } else {
        chosen_script_spec(candidates.skip(1), exists.skip(1))
    }
}

/// Picks the overlay script, given for each candidate whether it exists.
pub fn choose_script(candidates: &Vec<String>, exists: &Vec<bool>) -> (r: String)
    requires
        candidates@.len() == exists@.len(),
    ensures
        r@ == chosen_script_spec(candidates@.map_values(|s: String| s@), exists@),
{
    let ghost cv = candidates@.map_values(|s: String| s@);
    let n = candidates.len();
    let mut i: usize = 0;
    proof {
        assert(cv.skip(0) == cv);
        assert(exists@.skip(0) == exists@);
    }
    while i < n
        invariant
            n == candidates@.len(),
            n == exists@.len(),
            i <= n,
            cv == candidates@.map_values(|s: String| s@),
            chosen_script_spec(cv, exists@) == chosen_script_spec(
                cv.skip(i as int),
                exists@.skip(i as int),
            ),
        decreases n - i,
    {
        proof {
            assert(cv.skip(i as int)[0] == candidates@[i as int]@);
            assert(exists@.skip(i as int)[0] == exists@[i as int]);
            assert(cv.skip(i as int).skip(1) == cv.skip(i + 1));
            assert(exists@.skip(i as int).skip(1) == exists@.skip(i + 1));
        }
        if exists[i] {
            return to_string(candidates[i].as_str());
        }
        i = i + 1;
    }
    proof {
        assert(cv.skip(n as int).len() == 0);
    }
    to_string(DEFAULT_SCRIPT)
}

/// The script chosen is the first candidate that exists: where candidate `i` exists
/// and none before it does, it is candidate `i`; where none exists, it is the
/// default.
pub proof fn lemma_first_existing_script(candidates: Seq<Seq<char>>, exists: Seq<bool>)
    requires
        candidates.len() == exists.len(),
    ensures
        forall|i: int|
            0 <= i < candidates.len() && #[trigger] exists[i] && (forall|j: int|
                0 <= j < i ==> !exists[j]) ==> chosen_script_spec(candidates, exists)
                == candidates[i],
        (forall|j: int| 0 <= j < exists.len() ==> !exists[j]) ==> chosen_script_spec(
            candidates,
            exists,
        ) == DEFAULT_SCRIPT@,
    decreases candidates.len(),
{
    if candidates.len() > 0 {
        let c1 = candidates.skip(1);
        let e1 = exists.skip(1);
        lemma_first_existing_script(c1, e1);
        assert forall|i: int|
            0 <= i < candidates.len() && #[trigger] exists[i] && (forall|j: int|
                0 <= j < i ==> !exists[j]) implies chosen_script_spec(candidates, exists)
            == candidates[i] by {
            if i > 0 {
                assert(e1[i - 1] == exists[i]);
                assert(c1[i - 1] == candidates[i]);
                assert forall|j: int| 0 <= j < i - 1 implies !e1[j] by {
                    assert(e1[j] == exists[j + 1]);
                }
            }
        }
        if forall|j: int| 0 <= j < exists.len() ==> !exists[j] {
            assert forall|j: int| 0 <= j < e1.len() implies !e1[j] by {
                assert(e1[j] == exists[j + 1]);
            }
        }
    }
}

/// The autostart entry of a home folder is `.config/autostart/urGlance.desktop`
/// under it, with one separator after the home folder.
pub proof fn lemma_autostart_path(home: Seq<char>)
    ensures
        join_spec(autostart_dir_spec(home), "urGlance.desktop"@) == (if home.len() == 0
            || home.last() == '/' {
            home
        } else {
            home + "/"@
        }) + ".config/autostart/urGlance.desktop"@,
{
    reveal_strlit("/");
    reveal_strlit(".config");
    reveal_strlit("autostart");
    reveal_strlit("urGlance.desktop");
    reveal_strlit(".config/autostart/urGlance.desktop");
    let dir = if home.len() == 0 || home.last() == '/' {
        home
    } else {
        home + "/"@
    };
    let c = join_spec(home, ".config"@);
    assert(c == dir + ".config"@);
    assert(c.last() == 'g');
    let a = join_spec(c, "autostart"@);
    assert(a == dir + ".config"@ + seq!['/'] + "autostart"@);
    assert(a.last() == 't');
    assert(join_spec(a, "urGlance.desktop"@) == dir + (".config"@ + seq!['/'] + "autostart"@
        + seq!['/'] + "urGlance.desktop"@));
    assert(".config"@ + seq!['/'] + "autostart"@ + seq!['/'] + "urGlance.desktop"@
        =~= ".config/autostart/urGlance.desktop"@);
}

} // verus!
