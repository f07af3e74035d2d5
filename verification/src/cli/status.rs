//! The status of the service.

use vstd::prelude::*;

use super::exit_codes::{EXIT_DEGRADED, EXIT_SERVICE_UNAVAILABLE, EXIT_SUCCESS};
use crate::config::validate;
use crate::text;

verus! {

/// How the service is doing.
#[derive(Debug, PartialEq, Eq)]
pub struct ServiceStatus {
    pub systemd_active: bool,
    pub systemd_state: String,
    pub frontend_responsive: bool,
}

/// The state of the unit as systemd tells it: two lines become one, anything else stays as it is.
pub open spec fn state_text(shown: Option<Seq<char>>) -> Seq<char> {
    match shown {
        None => "unknown"@,
        Some(raw) => {
            let t = text::trimmed(raw);
            let lines = text::split(t, '\n');
            if lines.len() == 2 {
                text::trimmed(lines[0]) + "/"@ + text::trimmed(lines[1])
            } else {
                t
            }
        },
    }
}

/// Whether systemd calls the unit active.
pub open spec fn is_active(answer: Option<Seq<char>>) -> bool {
    answer is Some && text::trimmed(answer->Some_0) == "active"@
}

/// The status out of what systemd answered, where it could be asked, and whether the frontend
/// answered.
pub fn read_status(is_active_out: Option<&str>, show_out: Option<&str>, responsive: bool) -> (r:
    ServiceStatus)
    ensures
        r.systemd_active == is_active(validate::opt_text(is_active_out)),
        r.systemd_state@ == state_text(validate::opt_text(show_out)),
        r.frontend_responsive == responsive,
{
    let systemd_active = match is_active_out {
        Some(s) => text::same(text::trim(s), "active"),
        None => false,
    };
    let systemd_state = match show_out {
        None => "unknown".to_owned(),
        Some(raw) => {
            let t = text::trim(raw);
            let lines = text::split_on(t, '\n');
            let ghost views = text::split(t@, '\n');
            if lines.len() == 2 {
                assert(views[0] == lines@[0]@);
                assert(views[1] == lines@[1]@);
                text::cat3(text::trim(lines[0].as_str()), "/", text::trim(lines[1].as_str()))
            } else {
                t.to_owned()
            }
        },
    };
    ServiceStatus { systemd_active, systemd_state, frontend_responsive: responsive }
}

/// The exit code of a status.
pub open spec fn status_code(active: bool, responsive: bool) -> i32 {
    if !active {
        EXIT_SERVICE_UNAVAILABLE
    } else if !responsive {
        EXIT_DEGRADED
    } else {
        EXIT_SUCCESS
    }
}

/// The mark in front of a line.
pub open spec fn mark(on: bool) -> Seq<char> {
    if on {
        "\u{25cf}"@
    } else {
        "\u{25cb}"@
    }
}

/// The status as it is shown.
pub open spec fn status_text(active: bool, state: Seq<char>, responsive: bool) -> Seq<char> {
    mark(active) + " systemd: "@ + state + "\n"@ + mark(responsive) + " frontend: "@ + (
    if responsive {
        "responsive"@
    } else {
        "not responding"@
    }) + "\n"@
}

impl ServiceStatus {
    /// The exit code.
    pub fn exit_code(&self) -> (r: i32)
        ensures
            r == status_code(self.systemd_active, self.frontend_responsive),
    {
        if self.systemd_active && self.frontend_responsive {
            EXIT_SUCCESS
        } else if self.systemd_active {
            EXIT_DEGRADED
        } else {
            EXIT_SERVICE_UNAVAILABLE
        }
    }

    /// The status as it is shown.
    pub fn table(&self) -> (r: String)
        ensures
            r@ == status_text(self.systemd_active, self.systemd_state@, self.frontend_responsive),
    {
        let mut r = if self.systemd_active {
            "\u{25cf}".to_owned()
        } else {
            "\u{25cb}".to_owned()
        };
        r.append(" systemd: ");
        r.append(self.systemd_state.as_str());
        r.append("\n");
        if self.frontend_responsive {
            r.append("\u{25cf}");
        } else {
            r.append("\u{25cb}");
        }
        r.append(" frontend: ");
        if self.frontend_responsive {
            r.append("responsive");
        } else {
            r.append("not responding");
        }
        r.append("\n");
        r
    }
}

/// Success is told exactly where the unit is active and the frontend answers.
pub proof fn success_means_all_well(active: bool, responsive: bool)
    ensures
        status_code(active, responsive) == EXIT_SUCCESS <==> active && responsive,
{
}

/// A unit that is not active exits with 69, one whose frontend does not answer with 7, and one that
/// is well with 0.
pub proof fn status_exits_by_health(active: bool, responsive: bool)
    ensures
        !active ==> status_code(active, responsive) == 69,
        active && !responsive ==> status_code(active, responsive) == 7,
        active && responsive ==> status_code(active, responsive) == 0,
{
}

/// The two lines of a status begin with a full circle where the unit is active and where the frontend
/// answers, and with an empty one otherwise; the state stands on the first.
pub proof fn status_marks_tell_health(active: bool, state: Seq<char>, responsive: bool)
    ensures
        ({
            let t = status_text(active, state, responsive);
            let second = 12 + state.len() as int;
            &&& t[0] == if active {
                '\u{25cf}'
            } else {
                '\u{25cb}'
            }
            &&& t.len() > second
            &&& t.subrange(11, 11 + state.len() as int) == state
            &&& t[second - 1] == '\n'
            &&& t[second] == if responsive {
                '\u{25cf}'
            } else {
                '\u{25cb}'
            }
        }),
{
    reveal_strlit("\u{25cf}");
    reveal_strlit("\u{25cb}");
    reveal_strlit(" systemd: ");
    reveal_strlit("\n");
    reveal_strlit(" frontend: ");
    let t = status_text(active, state, responsive);
    assert(t.subrange(11, 11 + state.len() as int) =~= state);
}

/// A unit counts as active exactly where systemd answers with that word.
pub proof fn active_is_the_word(answer: Option<Seq<char>>)
    ensures
        is_active(answer) <==> (answer matches Some(a) && text::trimmed(a) == seq![
            'a',
            'c',
            't',
            'i',
            'v',
            'e',
        ]),
{
    reveal_strlit("active");
    assert("active"@ =~= seq!['a', 'c', 't', 'i', 'v', 'e']);
}

/// Two lines that systemd answers with stand in one, with a slash between them; one line stands as
/// it is, and no answer is unknown.
pub proof fn states_are_told(a: Seq<char>, b: Seq<char>)
    requires
        a.len() > 0,
        b.len() > 0,
        !a.contains('\n'),
        !b.contains('\n'),
        text::trimmed(a) == a,
        text::trimmed(b) == b,
    ensures
        state_text(Some(a)) == a,
        state_text(Some(a.push('\n') + b)) == a + seq!['/'] + b,
        state_text(None) == "unknown"@,
{
    reveal_strlit("/");
    assert("/"@ =~= seq!['/']);
    text::splitting_a_glued_text(a, b, '\n');
    text::splitting_a_glued_text(b, b, '\n');
    let s = a.push('\n') + b;
    assert(text::trimmed(s) == s) by {
        assert(!text::is_white(a[0])) by {
            text::trimming_takes_only_white(a);
        }
        assert(!text::is_white(b.last())) by {
            text::trimming_takes_only_white(b);
        }
        assert(s[0] == a[0]);
        assert(s.last() == b.last());
        text::trimming_leaves_the_rest(s);
    }
    let lines = text::split(s, '\n');
    assert(lines =~= seq![a, b]);
    assert(lines.len() == 2 && lines[0] == a && lines[1] == b);
    assert(text::split(a, '\n').len() == 1);
}

} // verus!
