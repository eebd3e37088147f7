//! The plan data model and its one-line display rendering.

use crate::digits::{int_chars, pad2_chars, push_i32, push_pad2};
use crate::time::TimeValue;
use vstd::prelude::*;

verus! {

/// The mathematical model of a plan: an optional server identifier, a
/// title, and optional start and end times.
pub ghost struct PlanView {
    pub id: Option<int>,
    pub title: Seq<char>,
    pub from: Option<TimeValue>,
    pub to: Option<TimeValue>,
}

impl PlanView {
    /// Any present time is a valid clock time.
    pub open spec fn wf(self) -> bool {
        &&& (self.from matches Some(t) ==> t.valid())
        &&& (self.to matches Some(t) ==> t.valid())
    }
}

/// A titled agenda item with optional start and end times, and the
/// identifier the server assigned to it, when it has one.
#[derive(Debug, Clone, PartialEq)]
pub struct Plan {
    pub id: Option<i32>,
    pub title: String,
    pub from: Option<TimeValue>,
    pub to: Option<TimeValue>,
}

impl View for Plan {
    type V = PlanView;

    open spec fn view(&self) -> PlanView {
        PlanView {
            id: match self.id {
                Some(i) => Some(i as int),
                None => None,
            },
            title: self.title@,
            from: self.from,
            to: self.to,
        }
    }
}

impl DeepView for Plan {
    type V = PlanView;

    open spec fn deep_view(&self) -> PlanView {
        self.view()
    }
}

/// The display form of an identifier prefix: `[<id>] `, or nothing.
pub open spec fn id_prefix_chars(id: Option<int>) -> Seq<char> {
    match id {
        Some(i) => seq!['['] + int_chars(i) + seq![']', ' '],
        None => Seq::<char>::empty(),
    }
}

/// The display form of an optional time: hour and minute zero-padded to
/// two digits around a colon; an absent time keeps the colon, with a
/// space holding the minute's place.
pub open spec fn opt_time_chars(t: Option<TimeValue>) -> Seq<char> {
    match t {
        Some(tv) => pad2_chars(tv.hr as int) + seq![':'] + pad2_chars(tv.min as int),
        None => seq![':', ' '],
    }
}

/// The one-line display form of a plan: identifier prefix, start time,
/// a dash, end time, then the title verbatim.
pub open spec fn render_chars(p: PlanView) -> Seq<char> {
    id_prefix_chars(p.id) + opt_time_chars(p.from) + seq![' ', '-', ' '] + opt_time_chars(p.to)
        + seq![' '] + p.title
}

/// Appends the display form of an optional time to `out`.
fn push_opt_time(out: &mut String, t: &Option<TimeValue>)
    ensures
        final(out)@ == old(out)@ + opt_time_chars(*t),
{
    match t {
        Some(tv) => {
            push_pad2(out, tv.hr);
            proof {
                reveal_strlit(":");
            }
            out.append(":");
            push_pad2(out, tv.min);
            proof {
                assert(final(out)@ =~= old(out)@ + opt_time_chars(*t));
            }
        },
        None => {
            proof {
                reveal_strlit(": ");
                assert(": "@ =~= opt_time_chars(None::<TimeValue>));
            }
            out.append(": ");
        },
    }
}

impl Plan {
    /// Renders the plan as its single display line.
    pub fn render(&self) -> (r: String)
        ensures
            r@ == render_chars(self@),
    {
        let mut out = String::new();
        if let Some(id) = self.id {
            proof {
                reveal_strlit("[");
                reveal_strlit("] ");
            }
            out.append("[");
            push_i32(&mut out, id);
            out.append("] ");
            proof {
                assert(out@ =~= id_prefix_chars(self@.id));
            }
        }
        push_opt_time(&mut out, &self.from);
        proof {
            reveal_strlit(" - ");
            reveal_strlit(" ");
        }
        out.append(" - ");
        push_opt_time(&mut out, &self.to);
        out.append(" ");
        out.append(self.title.as_str());
        proof {
            assert(out@ =~= render_chars(self@));
        }
        out
    }
}

} // verus!
