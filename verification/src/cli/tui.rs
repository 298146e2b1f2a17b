//! The headless roster.
//!
//! `walkie tui` runs everything except the menu bar and prints the roster as
//! text whenever it changes. What that text is, for a given interface state,
//! is decided here.
use vstd::prelude::*;

use crate::cli::fmt::{column_width, join_padded, Table};
use crate::text::trimmed_end;
use crate::keys::{short_id, short_id_spec};
use crate::state::{AudioCounters, KnockView, MicState, PeerView, UiState};
use crate::text::{append, decimal, decimal_string};

verus! {

/// Lines, each followed by a line break.
pub open spec fn lines_text(lines: Seq<Seq<char>>) -> Seq<char>
    decreases lines.len(),
{
    if lines.len() == 0 {
        Seq::empty()
    } else {
        lines_text(lines.drop_last()) + lines.last() + seq!['\n']
    }
}

/// The width of every column of a table.
pub open spec fn widths_of(headers: Seq<Seq<char>>, rows: Seq<Seq<Seq<char>>>) -> Seq<nat> {
    Seq::new(headers.len(), |i: int| column_width(headers[i], rows, i))
}

/// One line of a table: the indent, then the padded cells.
pub open spec fn table_line(indent: Seq<char>, cells: Seq<Seq<char>>, widths: Seq<nat>) -> Seq<char> {
    indent + trimmed_end(join_padded(cells, widths))
}

/// A table as text: the header line, then one line per row.
pub open spec fn table_text(
    headers: Seq<Seq<char>>,
    rows: Seq<Seq<Seq<char>>>,
    indent: Seq<char>,
) -> Seq<char> {
    let widths = widths_of(headers, rows);
    lines_text(
        Seq::new(
            rows.len() + 1,
            |k: int|
                if k == 0 {
                    table_line(indent, headers, widths)
                } else {
                    table_line(indent, rows[k - 1], widths)
                },
        ),
    )
}

/// A table as text, each line indented by two spaces.
pub fn render_table(table: &Table) -> (r: String)
    ensures
        r@ == table_text(table.spec_headers(), table.spec_rows(), "  "@),
{
    let lines = table.render("  ");
    let ghost want = Seq::new(
        table.spec_rows().len() + 1,
        |k: int|
            if k == 0 {
                table_line("  "@, table.spec_headers(), table.spec_widths())
            } else {
                table_line("  "@, table.spec_rows()[k - 1], table.spec_widths())
            },
    );
    assert(table.spec_widths() == widths_of(table.spec_headers(), table.spec_rows()));
    assert forall|k: int| 0 <= k < lines@.len() implies #[trigger] lines@[k]@ == want[k] by {
        if k > 0 {
            assert(lines@[(k - 1) + 1]@ == want[k]);
        }
    }
    let mut out = String::new();
    let mut i: usize = 0;
    while i < lines.len()
        invariant
            i <= lines@.len(),
            lines@.len() == want.len(),
            forall|k: int| 0 <= k < lines@.len() ==> #[trigger] lines@[k]@ == want[k],
            out@ == lines_text(want.subrange(0, i as int)),
        decreases lines@.len() - i,
    {
        proof {
            assert(want.subrange(0, i + 1).drop_last() =~= want.subrange(0, i as int));
        }
        append(&mut out, lines[i].as_str());
        let brk: Vec<char> = vec!['\n'];
        crate::text::push_all(&mut out, brk.as_slice());
        i = i + 1;
        assert(out@ =~= lines_text(want.subrange(0, i as int)));
    }
    assert(want.subrange(0, want.len() as int) =~= want);
    out
}

/// The word for the local microphone.
pub open spec fn mic_word(mic: MicState) -> Seq<char> {
    match mic {
        MicState::Closed => "closed"@,
        MicState::Armed => "armed"@,
        MicState::Live => "LIVE"@,
        MicState::Muted => "muted"@,
    }
}

/// The word for a peer in the roster: whether it is there, and if so what
/// it is doing, the first that holds of speaking, muted, do not disturb.
pub open spec fn presence_word(online: bool, speaking: bool, muted: bool, dnd: bool) -> Seq<char> {
    if !online {
        "offline"@
    } else if speaking {
        "speaking"@
    } else if muted {
        "muted"@
    } else if dnd {
        "dnd"@
    } else {
        "online"@
    }
}

/// The cells of a peer's roster row: live mark, slot, name, state, round
/// trip time, path.
pub open spec fn peer_row(p: PeerView) -> Seq<Seq<char>> {
    seq![
        if p.live {
            "»"@
        } else {
            " "@
        },
        match p.slot {
            Some(s) => decimal(s as nat),
            None => "-"@,
        },
        p.name@,
        presence_word(p.online, p.speaking, p.muted, p.dnd),
        match p.rtt_ms {
            Some(ms) => decimal(ms as nat) + "ms"@,
            None => "-"@,
        },
        p.path.short_spec(),
    ]
}

/// The roster table's column titles.
pub open spec fn roster_headers() -> Seq<Seq<char>> {
    seq![""@, "SLOT"@, "NAME"@, "STATE"@, "RTT"@, "PATH"@]
}

/// The line that says whether the endpoint is online and what the
/// microphone is doing.
pub open spec fn status_line(online: bool, mic: MicState) -> Seq<char> {
    "\n  endpoint "@ + (if online {
        "online"@
    } else {
        "offline"@
    }) + "   microphone "@ + mic_word(mic) + "\n"@
}

/// The audio counters, once anything has been encoded or sent.
pub open spec fn audio_line(a: AudioCounters) -> Seq<char> {
    if a.encoded > 0 || a.sent > 0 {
        "  audio  encoded "@ + decimal(a.encoded as nat) + "  sent "@ + decimal(a.sent as nat)
            + "  refused "@ + decimal(a.refused as nat) + "  |  played "@ + decimal(
            a.played as nat,
        ) + "  concealed "@ + decimal(a.concealed as nat) + "  late "@ + decimal(a.late as nat)
            + "  overrun "@ + decimal(a.overrun as nat) + "\n"@
    } else {
        Seq::empty()
    }
}

/// The roster part: a hint when there are no contacts, the table otherwise.
pub open spec fn peers_text(peers: Seq<PeerView>) -> Seq<char> {
    if peers.len() == 0 {
        "  no contacts. run `walkie add wt1…` in another shell.\n"@
    } else {
        "\n"@ + table_text(roster_headers(), peers.map_values(|p: PeerView| peer_row(p)), "  "@)
    }
}

/// The line for one endpoint waiting to be approved.
pub open spec fn knock_line(k: KnockView) -> Seq<char> {
    "  waiting: "@ + (match k.claimed {
        Some(name) => name@,
        None => "(no name)"@,
    }) + " "@ + short_id_spec(k.endpoint_id) + "   approve with `walkie approve "@ + short_id_spec(
        k.endpoint_id,
    ) + "`\n"@
}

/// Every waiting endpoint's line, in order.
pub open spec fn knocks_text(knocks: Seq<KnockView>) -> Seq<char>
    decreases knocks.len(),
{
    if knocks.len() == 0 {
        Seq::empty()
    } else {
        knocks_text(knocks.drop_last()) + knock_line(knocks.last())
    }
}

/// The whole headless roster for an interface state.
pub open spec fn render_spec(state: UiState) -> Seq<char> {
    status_line(state.online, state.mic) + audio_line(state.audio) + peers_text(state.peers@)
        + knocks_text(state.knocks@)
}

fn mic_text(mic: MicState) -> (r: &'static str)
    ensures
        r@ == mic_word(mic),
{
    match mic {
        MicState::Closed => "closed",
        MicState::Armed => "armed",
        MicState::Live => "LIVE",
        MicState::Muted => "muted",
    }
}

/// The roster word for a peer.
pub fn presence(online: bool, speaking: bool, muted: bool, dnd: bool) -> (r: &'static str)
    ensures
        r@ == presence_word(online, speaking, muted, dnd),
{
    if !online {
        "offline"
    } else if speaking {
        "speaking"
    } else if muted {
        "muted"
    } else if dnd {
        "dnd"
    } else {
        "online"
    }
}

fn owned(s: &str) -> (r: String)
    ensures
        r@ == s@,
{
    let mut out = String::new();
    append(&mut out, s);
    out
}

fn peer_cells(p: &PeerView) -> (r: Vec<String>)
    ensures
        r@.map_values(|c: String| c@) == peer_row(*p),
{
    let live = if p.live {
        owned("»")
    } else {
        owned(" ")
    };
    let slot = match p.slot {
        Some(s) => decimal_string(s as u64),
        None => owned("-"),
    };
    let name = owned(p.name.as_str());
    let state = owned(presence(p.online, p.speaking, p.muted, p.dnd));
    let rtt = match p.rtt_ms {
        Some(ms) => {
            let mut t = decimal_string(ms as u64);
            append(&mut t, "ms");
            t
        },
        None => owned("-"),
    };
    let path = owned(p.path.short());
    let cells = vec![live, slot, name, state, rtt, path];
    assert(cells@.map_values(|c: String| c@) =~= peer_row(*p));
    cells
}

fn audio_text(out: &mut String, a: &AudioCounters)
    ensures
        final(out)@ == old(out)@ + audio_line(*a),
{
    if a.encoded > 0 || a.sent > 0 {
        append(out, "  audio  encoded ");
        append(out, decimal_string(a.encoded).as_str());
        append(out, "  sent ");
        append(out, decimal_string(a.sent).as_str());
        append(out, "  refused ");
        append(out, decimal_string(a.refused).as_str());
        append(out, "  |  played ");
        append(out, decimal_string(a.played).as_str());
        append(out, "  concealed ");
        append(out, decimal_string(a.concealed).as_str());
        append(out, "  late ");
        append(out, decimal_string(a.late).as_str());
        append(out, "  overrun ");
        append(out, decimal_string(a.overrun).as_str());
        append(out, "\n");
        assert(out@ =~= old(out)@ + audio_line(*a));
    } else {
        assert(out@ =~= old(out)@ + audio_line(*a));
    }
}

fn knock_text(out: &mut String, k: &KnockView)
    ensures
        final(out)@ == old(out)@ + knock_line(*k),
{
    append(out, "  waiting: ");
    match &k.claimed {
        Some(name) => append(out, name.as_str()),
        None => append(out, "(no name)"),
    }
    append(out, " ");
    let short = short_id(&k.endpoint_id);
    append(out, short.as_str());
    append(out, "   approve with `walkie approve ");
    append(out, short.as_str());
    append(out, "`\n");
    assert(out@ =~= old(out)@ + knock_line(*k));
}

/// The headless roster for an interface state.
pub fn render(state: &UiState) -> (r: String)
    ensures
        r@ == render_spec(*state),
{
    let mut out = String::new();
    append(&mut out, "\n  endpoint ");
    append(
        &mut out,
        if state.online {
            "online"
        } else {
            "offline"
        },
    );
    append(&mut out, "   microphone ");
    append(&mut out, mic_text(state.mic));
    append(&mut out, "\n");
    assert(out@ =~= status_line(state.online, state.mic));
    audio_text(&mut out, &state.audio);
    let ghost head = out@;
    if state.peers.len() == 0 {
        append(&mut out, "  no contacts. run `walkie add wt1…` in another shell.\n");
    } else {
        let headers: [&str; 6] = ["", "SLOT", "NAME", "STATE", "RTT", "PATH"];
        let mut table = Table::new(&headers);
        assert(table.spec_headers() =~= roster_headers());
        let mut i: usize = 0;
        while i < state.peers.len()
            invariant
                i <= state.peers@.len(),
                table.spec_headers() == roster_headers(),
                table.spec_rows() == state.peers@.subrange(0, i as int).map_values(
                    |p: PeerView| peer_row(p),
                ),
            decreases state.peers@.len() - i,
        {
            let cells = peer_cells(&state.peers[i]);
            table.row(cells);
            i = i + 1;
            assert(table.spec_rows() =~= state.peers@.subrange(0, i as int).map_values(
                |p: PeerView| peer_row(p),
            ));
        }
        assert(state.peers@.subrange(0, state.peers@.len() as int) =~= state.peers@);
        append(&mut out, "\n");
        let text = render_table(&table);
        append(&mut out, text.as_str());
    }
    assert(out@ =~= head + peers_text(state.peers@));
    let ghost mid = out@;
    let mut k: usize = 0;
    while k < state.knocks.len()
        invariant
            k <= state.knocks@.len(),
            out@ == mid + knocks_text(state.knocks@.subrange(0, k as int)),
        decreases state.knocks@.len() - k,
    {
        proof {
            assert(state.knocks@.subrange(0, k + 1).drop_last() =~= state.knocks@.subrange(
                0,
                k as int,
            ));
        }
        knock_text(&mut out, &state.knocks[k]);
        k = k + 1;
        assert(out@ =~= mid + knocks_text(state.knocks@.subrange(0, k as int)));
    }
    assert(state.knocks@.subrange(0, state.knocks@.len() as int) =~= state.knocks@);
    assert(out@ =~= render_spec(*state));
    out
}

} // verus!
