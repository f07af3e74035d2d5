//! Tables for the terminal.

use vstd::prelude::*;

use crate::config::model::{Field, FlowRuleView};
use crate::frontend::exporter;
use crate::ipc::protocol::{
    self, DetailView, EntryView, FlowEntryData, FlowRuleData, FlowRuleDetailData, StatsRowView,
    StatsShowData,
};
use crate::text;

verus! {

/// What can be shown as a table.
pub trait TableDisplay {
    /// The table, line by line.
    spec fn table(&self) -> Seq<char>;

    /// The table, line by line.
    fn print_table(&self) -> (r: String)
        ensures
            r@ == self.table(),
    ;
}

// ---------------------------------------------------------------- pieces

/// The pieces in a row with `sep` between them.
pub open spec fn joined(pieces: Seq<Seq<char>>, sep: Seq<char>) -> Seq<char>
    decreases pieces.len(),
{
    if pieces.len() == 0 {
        Seq::empty()
    } else if pieces.len() == 1 {
        pieces[0]
    } else {
        joined(pieces.drop_last(), sep) + sep + pieces.last()
    }
}

/// The name of a field in lower case.
pub open spec fn field_text(f: Field) -> Seq<char> {
    match f {
        Field::SrcIp => "srcip"@,
        Field::DstIp => "dstip"@,
        Field::IpProto => "ipproto"@,
        Field::Dscp => "dscp"@,
        Field::MirrorSrcIp => "mirrorsrcip"@,
        Field::SrcPort => "srcport"@,
        Field::DstPort => "dstport"@,
    }
}

/// The names of fields.
pub open spec fn field_texts(fields: Seq<Field>) -> Seq<Seq<char>> {
    fields.map_values(|f: Field| field_text(f))
}

fn field_name(f: Field) -> (r: &'static str)
    ensures
        r@ == field_text(f),
{
    match f {
        Field::SrcIp => "srcip",
        Field::DstIp => "dstip",
        Field::IpProto => "ipproto",
        Field::Dscp => "dscp",
        Field::MirrorSrcIp => "mirrorsrcip",
        Field::SrcPort => "srcport",
        Field::DstPort => "dstport",
    }
}

fn join(pieces: &Vec<String>, sep: &str) -> (r: String)
    ensures
        r@ == joined(exporter::texts(pieces@), sep@),
{
    let ghost views = exporter::texts(pieces@);
    let mut r = String::new();
    let mut i: usize = 0;
    assert(r@ =~= joined(views.take(0), sep@));
    while i < pieces.len()
        invariant
            i <= pieces.len(),
            views == exporter::texts(pieces@),
            r@ == joined(views.take(i as int), sep@),
        decreases pieces.len() - i,
    {
        let ghost before = r@;
        proof {
            assert(views.take(i as int + 1).drop_last() =~= views.take(i as int));
            assert(views.take(i as int + 1).last() == pieces@[i as int]@);
        }
        if i > 0 {
            r.append(sep);
        }
        r.append(pieces[i].as_str());
        assert(r@ =~= joined(views.take(i as int + 1), sep@));
        i = i + 1;
    }
    assert(views.take(views.len() as int) =~= views);
    r
}

fn join_fields(fields: &Vec<Field>, sep: &str) -> (r: String)
    ensures
        r@ == joined(field_texts(fields@), sep@),
{
    let mut names: Vec<String> = Vec::new();
    let mut i: usize = 0;
    while i < fields.len()
        invariant
            i <= fields.len(),
            names.len() == i,
            forall|k: int| 0 <= k < i ==> (#[trigger] names@[k])@ == field_text(fields@[k]),
        decreases fields.len() - i,
    {
        names.push(field_name(fields[i]).to_owned());
        i = i + 1;
    }
    assert(exporter::texts(names@) =~= field_texts(fields@));
    join(&names, sep)
}

// ---------------------------------------------------------------- the list of rules

/// A line of the list of rules.
pub open spec fn list_line(name: Seq<char>, fields: Seq<char>, max_keys: Seq<char>) -> Seq<char> {
    text::padded_right(name, 20) + " "@ + text::padded_right(fields, 30) + " "@
        + text::padded_left(max_keys, 10) + "\n"@
}

/// The lines of the first `n` rules.
pub open spec fn list_lines(rules: Seq<FlowRuleView>, n: nat) -> Seq<char>
    decreases n,
{
    if n == 0 {
        Seq::empty()
    } else {
        let r = rules[n - 1];
        list_lines(rules, (n - 1) as nat) + list_line(
            r.name,
            joined(field_texts(r.fields), ","@),
            text::decimal(r.max_keys as nat),
        )
    }
}

/// The list of rules as a table.
#[derive(Debug)]
pub struct FlowRuleListOutput(pub Vec<FlowRuleData>);

fn push_list_line(out: &mut String, name: &str, fields: &str, max_keys: &str)
    ensures
        final(out)@ == old(out)@ + list_line(name@, fields@, max_keys@),
{
    let ghost before = out@;
    out.append(text::pad_right(name, 20).as_str());
    out.append(" ");
    out.append(text::pad_right(fields, 30).as_str());
    out.append(" ");
    out.append(text::pad_left(max_keys, 10).as_str());
    out.append("\n");
    assert(out@ =~= before + list_line(name@, fields@, max_keys@));
}

impl TableDisplay for FlowRuleListOutput {
    open spec fn table(&self) -> Seq<char> {
        let rules = protocol::rule_data_views(self.0@);
        if rules.len() == 0 {
            "No flow rules configured.\n"@
        } else {
            list_line("NAME"@, "FIELDS"@, "MAX_KEYS"@) + list_lines(rules, rules.len())
        }
    }

    fn print_table(&self) -> (r: String) {
        if self.0.len() == 0 {
            return "No flow rules configured.\n".to_owned();
        }
        let ghost rules = protocol::rule_data_views(self.0@);
        let mut out = String::new();
        push_list_line(&mut out, "NAME", "FIELDS", "MAX_KEYS");
        let ghost head = list_line("NAME"@, "FIELDS"@, "MAX_KEYS"@);
        assert(out@ =~= head + list_lines(rules, 0));
        let mut i: usize = 0;
        while i < self.0.len()
            invariant
                i <= self.0.len(),
                rules == protocol::rule_data_views(self.0@),
                out@ == head + list_lines(rules, i as nat),
            decreases self.0.len() - i,
        {
            let r = &self.0[i];
            assert(rules[i as int] == r@);
            push_list_line(
                &mut out,
                r.name.as_str(),
                join_fields(&r.fields, ",").as_str(),
                text::decimal_text(r.max_keys as u64).as_str(),
            );
            i = i + 1;
            assert(out@ =~= head + list_lines(rules, i as nat));
        }
        out
    }
}

// ---------------------------------------------------------------- one rule

/// A line of a flow.
pub open spec fn flow_line(f: EntryView) -> Seq<char> {
    "  Key: "@ + joined(f.key, ","@) + "  Pkts: "@ + text::decimal(f.packets as nat) + "  Bytes: "@
        + text::decimal(f.bytes as nat) + "\n"@
}

/// The lines of the first `n` flows.
pub open spec fn flow_lines(flows: Seq<EntryView>, n: nat) -> Seq<char>
    decreases n,
{
    if n == 0 {
        Seq::empty()
    } else {
        flow_lines(flows, (n - 1) as nat) + flow_line(flows[n - 1])
    }
}

/// A rule with its counters and flows.
pub open spec fn detail_text(d: DetailView) -> Seq<char> {
    let head = "Name:       "@ + d.rule.name + "\nFields:     "@ + joined(
        field_texts(d.rule.fields),
        ", "@,
    ) + "\nMax keys:   "@ + text::decimal(d.rule.max_keys as nat)
        + "\nCounters:\n  Packets:    "@ + text::decimal(d.counters.packets as nat)
        + "\n  Bytes:      "@ + text::decimal(d.counters.bytes as nat) + "\n  Evictions:  "@
        + text::decimal(d.counters.evictions as nat) + "\n  Drops:      "@ + text::decimal(
        d.counters.drops as nat,
    ) + "\n"@;
    if d.flows.len() == 0 {
        head
    } else {
        head + "Flows ("@ + text::decimal(d.flows.len()) + "):\n"@ + flow_lines(
            d.flows,
            d.flows.len(),
        )
    }
}

/// A rule with its counters and flows as a table.
#[derive(Debug)]
pub struct FlowRuleShowOutput(pub FlowRuleDetailData);

fn push_flow_line(out: &mut String, f: &FlowEntryData)
    ensures
        final(out)@ == old(out)@ + flow_line(f@),
{
    let ghost before = out@;
    out.append("  Key: ");
    out.append(join(&f.key, ",").as_str());
    out.append("  Pkts: ");
    text::push_decimal(out, f.packets);
    out.append("  Bytes: ");
    text::push_decimal(out, f.bytes);
    out.append("\n");
    assert(out@ =~= before + flow_line(f@));
}

impl TableDisplay for FlowRuleShowOutput {
    open spec fn table(&self) -> Seq<char> {
        detail_text(self.0@)
    }

    fn print_table(&self) -> (r: String) {
        let d = &self.0;
        let mut out = "Name:       ".to_owned();
        out.append(d.name.as_str());
        out.append("\nFields:     ");
        out.append(join_fields(&d.fields, ", ").as_str());
        out.append("\nMax keys:   ");
        text::push_decimal(&mut out, d.max_keys as u64);
        out.append("\nCounters:\n  Packets:    ");
        text::push_decimal(&mut out, d.counters.packets);
        out.append("\n  Bytes:      ");
        text::push_decimal(&mut out, d.counters.bytes);
        out.append("\n  Evictions:  ");
        text::push_decimal(&mut out, d.counters.evictions);
        out.append("\n  Drops:      ");
        text::push_decimal(&mut out, d.counters.drops);
        out.append("\n");
        if d.flows.len() == 0 {
            return out;
        }
        out.append("Flows (");
        text::push_decimal(&mut out, d.flows.len() as u64);
        out.append("):\n");
        let ghost head = out@;
        let ghost flows = protocol::entry_views(d.flows@);
        let mut i: usize = 0;
        assert(head + flow_lines(flows, 0) =~= head);
        while i < d.flows.len()
            invariant
                i <= d.flows.len(),
                flows == protocol::entry_views(d.flows@),
                out@ == head + flow_lines(flows, i as nat),
            decreases d.flows.len() - i,
        {
            assert(flows[i as int] == d.flows@[i as int]@);
            push_flow_line(&mut out, &d.flows[i]);
            i = i + 1;
            assert(out@ =~= head + flow_lines(flows, i as nat));
        }
        out
    }
}

// ---------------------------------------------------------------- totals

/// A line of the totals.
pub open spec fn stats_line(
    name: Seq<char>,
    packets: Seq<char>,
    bytes: Seq<char>,
    flows: Seq<char>,
    evictions: Seq<char>,
    drops: Seq<char>,
) -> Seq<char> {
    text::padded_right(name, 20) + " "@ + text::padded_left(packets, 12) + " "@
        + text::padded_left(bytes, 12) + " "@ + text::padded_left(flows, 10) + " "@
        + text::padded_left(evictions, 8) + " "@ + text::padded_left(drops, 8) + "\n"@
}

/// The lines of the first `n` rules.
pub open spec fn stats_lines(rows: Seq<StatsRowView>, n: nat) -> Seq<char>
    decreases n,
{
    if n == 0 {
        Seq::empty()
    } else {
        let r = rows[n - 1];
        stats_lines(rows, (n - 1) as nat) + stats_line(
            r.name,
            text::decimal(r.packets as nat),
            text::decimal(r.bytes as nat),
            text::decimal(r.active_flows as nat),
            text::decimal(r.evictions as nat),
            text::decimal(r.drops as nat),
        )
    }
}

/// The totals of the rules as a table.
#[derive(Debug)]
pub struct StatsShowOutput(pub StatsShowData);

fn push_stats_line(
    out: &mut String,
    name: &str,
    packets: &str,
    bytes: &str,
    flows: &str,
    evictions: &str,
    drops: &str,
)
    ensures
        final(out)@ == old(out)@ + stats_line(
            name@,
            packets@,
            bytes@,
            flows@,
            evictions@,
            drops@,
        ),
{
    let ghost before = out@;
    out.append(text::pad_right(name, 20).as_str());
    out.append(" ");
    out.append(text::pad_left(packets, 12).as_str());
    out.append(" ");
    out.append(text::pad_left(bytes, 12).as_str());
    out.append(" ");
    out.append(text::pad_left(flows, 10).as_str());
    out.append(" ");
    out.append(text::pad_left(evictions, 8).as_str());
    out.append(" ");
    out.append(text::pad_left(drops, 8).as_str());
    out.append("\n");
    assert(out@ =~= before + stats_line(name@, packets@, bytes@, flows@, evictions@, drops@));
}

impl TableDisplay for StatsShowOutput {
    open spec fn table(&self) -> Seq<char> {
        let rows = protocol::row_views(self.0.flow_rules@);
        if rows.len() == 0 {
            "No flow rule stats available.\n"@
        } else {
            stats_line("RULE"@, "PACKETS"@, "BYTES"@, "FLOWS"@, "EVICT"@, "DROPS"@) + stats_lines(
                rows,
                rows.len(),
            )
        }
    }

    fn print_table(&self) -> (r: String) {
        let list = &self.0.flow_rules;
        if list.len() == 0 {
            return "No flow rule stats available.\n".to_owned();
        }
        let ghost rows = protocol::row_views(list@);
        let mut out = String::new();
        push_stats_line(&mut out, "RULE", "PACKETS", "BYTES", "FLOWS", "EVICT", "DROPS");
        let ghost head = stats_line("RULE"@, "PACKETS"@, "BYTES"@, "FLOWS"@, "EVICT"@, "DROPS"@);
        assert(out@ =~= head + stats_lines(rows, 0));
        let mut i: usize = 0;
        while i < list.len()
            invariant
                i <= list.len(),
                rows == protocol::row_views(list@),
                out@ == head + stats_lines(rows, i as nat),
            decreases list.len() - i,
        {
            let r = &list[i];
            assert(rows[i as int] == r@);
            push_stats_line(
                &mut out,
                r.name.as_str(),
                text::decimal_text(r.packets).as_str(),
                text::decimal_text(r.bytes).as_str(),
                text::decimal_text(r.active_flows).as_str(),
                text::decimal_text(r.evictions).as_str(),
                text::decimal_text(r.drops).as_str(),
            );
            i = i + 1;
            assert(out@ =~= head + stats_lines(rows, i as nat));
        }
        out
    }
}

// ---------------------------------------------------------------- laws

/// Line `i` of a table whose lines are all `width` characters long.
pub open spec fn line_at(t: Seq<char>, width: int, i: int) -> Seq<char> {
    t.subrange(width * i, width * i + width)
}

/// Whether the totals of a rule fit in their columns.
pub open spec fn row_fits(r: StatsRowView) -> bool {
    &&& r.name.len() <= 20
    &&& text::decimal(r.packets as nat).len() <= 12
    &&& text::decimal(r.bytes as nat).len() <= 12
    &&& text::decimal(r.active_flows as nat).len() <= 10
    &&& text::decimal(r.evictions as nat).len() <= 8
    &&& text::decimal(r.drops as nat).len() <= 8
}

proof fn stats_line_columns(
    name: Seq<char>,
    packets: Seq<char>,
    bytes: Seq<char>,
    flows: Seq<char>,
    evictions: Seq<char>,
    drops: Seq<char>,
)
    requires
        name.len() <= 20,
        packets.len() <= 12,
        bytes.len() <= 12,
        flows.len() <= 10,
        evictions.len() <= 8,
        drops.len() <= 8,
    ensures
        ({
            let line = stats_line(name, packets, bytes, flows, evictions, drops);
            &&& line.len() == 76
            &&& line.subrange(0, 20) == text::padded_right(name, 20)
            &&& line.subrange(21, 33) == text::padded_left(packets, 12)
            &&& line.subrange(34, 46) == text::padded_left(bytes, 12)
            &&& line.subrange(47, 57) == text::padded_left(flows, 10)
            &&& line.subrange(58, 66) == text::padded_left(evictions, 8)
            &&& line.subrange(67, 75) == text::padded_left(drops, 8)
        }),
{
    reveal_strlit(" ");
    reveal_strlit("\n");
    let line = stats_line(name, packets, bytes, flows, evictions, drops);
    text::padding_fills_with_spaces(name, 20);
    text::padding_fills_with_spaces(packets, 12);
    text::padding_fills_with_spaces(bytes, 12);
    text::padding_fills_with_spaces(flows, 10);
    text::padding_fills_with_spaces(evictions, 8);
    text::padding_fills_with_spaces(drops, 8);
    assert(line.subrange(0, 20) =~= text::padded_right(name, 20));
    assert(line.subrange(21, 33) =~= text::padded_left(packets, 12));
    assert(line.subrange(34, 46) =~= text::padded_left(bytes, 12));
    assert(line.subrange(47, 57) =~= text::padded_left(flows, 10));
    assert(line.subrange(58, 66) =~= text::padded_left(evictions, 8));
    assert(line.subrange(67, 75) =~= text::padded_left(drops, 8));
}

/// The line of one rule.
spec fn row_line(r: StatsRowView) -> Seq<char> {
    stats_line(
        r.name,
        text::decimal(r.packets as nat),
        text::decimal(r.bytes as nat),
        text::decimal(r.active_flows as nat),
        text::decimal(r.evictions as nat),
        text::decimal(r.drops as nat),
    )
}

proof fn stats_lines_are(rows: Seq<StatsRowView>, n: nat, i: int)
    requires
        n <= rows.len(),
        0 <= i < n,
        forall|k: int| 0 <= k < rows.len() ==> row_fits(#[trigger] rows[k]),
    ensures
        stats_lines(rows, n).len() == 76 * n,
        line_at(stats_lines(rows, n), 76, i) == row_line(rows[i]),
    decreases n,
{
    let last = row_line(rows[n - 1]);
    let before = stats_lines(rows, (n - 1) as nat);
    let r = rows[n - 1];
    assert(row_fits(r));
    stats_line_columns(
        r.name,
        text::decimal(r.packets as nat),
        text::decimal(r.bytes as nat),
        text::decimal(r.active_flows as nat),
        text::decimal(r.evictions as nat),
        text::decimal(r.drops as nat),
    );
    if n > 1 {
        stats_lines_are(rows, (n - 1) as nat, if i < n - 1 { i } else { 0 });
    }
    assert(before.len() == 76 * (n - 1));
    if i < n - 1 {
        assert(line_at(before + last, 76, i) =~= line_at(before, 76, i));
    } else {
        assert(line_at(before + last, 76, i) =~= last);
    }
}

/// The totals of each rule stand on a line of their own, each under its heading: packets under
/// packets, bytes under bytes, and so on.
pub proof fn totals_stand_under_their_headings(o: StatsShowOutput, i: int)
    requires
        0 <= i < o.0.flow_rules@.len(),
        forall|k: int|
            0 <= k < o.0.flow_rules@.len() ==> row_fits((#[trigger] o.0.flow_rules@[k])@),
    ensures
        ({
            let head = line_at(o.table(), 76, 0);
            let line = line_at(o.table(), 76, i + 1);
            let r = o.0.flow_rules@[i];
            &&& o.table().len() == 76 * (o.0.flow_rules@.len() + 1)
            &&& head.subrange(0, 20) == text::padded_right("RULE"@, 20)
            &&& line.subrange(0, 20) == text::padded_right(r.name@, 20)
            &&& head.subrange(21, 33) == text::padded_left("PACKETS"@, 12)
            &&& line.subrange(21, 33) == text::padded_left(text::decimal(r.packets as nat), 12)
            &&& head.subrange(34, 46) == text::padded_left("BYTES"@, 12)
            &&& line.subrange(34, 46) == text::padded_left(text::decimal(r.bytes as nat), 12)
            &&& head.subrange(47, 57) == text::padded_left("FLOWS"@, 10)
            &&& line.subrange(47, 57) == text::padded_left(
                text::decimal(r.active_flows as nat),
                10,
            )
            &&& head.subrange(58, 66) == text::padded_left("EVICT"@, 8)
            &&& line.subrange(58, 66) == text::padded_left(text::decimal(r.evictions as nat), 8)
            &&& head.subrange(67, 75) == text::padded_left("DROPS"@, 8)
            &&& line.subrange(67, 75) == text::padded_left(text::decimal(r.drops as nat), 8)
        }),
{
    reveal_strlit("RULE");
    reveal_strlit("PACKETS");
    reveal_strlit("BYTES");
    reveal_strlit("FLOWS");
    reveal_strlit("EVICT");
    reveal_strlit("DROPS");
    let rows = protocol::row_views(o.0.flow_rules@);
    let n = rows.len();
    assert forall|k: int| 0 <= k < rows.len() implies row_fits(#[trigger] rows[k]) by {
        assert(row_fits(o.0.flow_rules@[k]@));
    }
    let r = rows[i];
    assert(r == o.0.flow_rules@[i]@);
    let head = stats_line("RULE"@, "PACKETS"@, "BYTES"@, "FLOWS"@, "EVICT"@, "DROPS"@);
    stats_line_columns("RULE"@, "PACKETS"@, "BYTES"@, "FLOWS"@, "EVICT"@, "DROPS"@);
    stats_lines_are(rows, n, i);
    assert(row_fits(r));
    stats_line_columns(
        r.name,
        text::decimal(r.packets as nat),
        text::decimal(r.bytes as nat),
        text::decimal(r.active_flows as nat),
        text::decimal(r.evictions as nat),
        text::decimal(r.drops as nat),
    );
    let body = stats_lines(rows, n);
    assert(o.table() == head + body);
    assert(line_at(head + body, 76, 0) =~= head);
    assert(line_at(head + body, 76, i + 1) =~= line_at(body, 76, i));
}

proof fn list_line_columns(name: Seq<char>, fields: Seq<char>, max_keys: Seq<char>)
    requires
        name.len() <= 20,
        fields.len() <= 30,
        max_keys.len() <= 10,
    ensures
        ({
            let line = list_line(name, fields, max_keys);
            &&& line.len() == 63
            &&& line.subrange(0, 20) == text::padded_right(name, 20)
            &&& line.subrange(21, 51) == text::padded_right(fields, 30)
            &&& line.subrange(52, 62) == text::padded_left(max_keys, 10)
        }),
{
    reveal_strlit(" ");
    reveal_strlit("\n");
    let line = list_line(name, fields, max_keys);
    text::padding_fills_with_spaces(name, 20);
    text::padding_fills_with_spaces(fields, 30);
    text::padding_fills_with_spaces(max_keys, 10);
    assert(line.subrange(0, 20) =~= text::padded_right(name, 20));
    assert(line.subrange(21, 51) =~= text::padded_right(fields, 30));
    assert(line.subrange(52, 62) =~= text::padded_left(max_keys, 10));
}

/// Whether a rule fits in the columns of the list.
pub open spec fn rule_fits(r: FlowRuleView) -> bool {
    &&& r.name.len() <= 20
    &&& joined(field_texts(r.fields), ","@).len() <= 30
    &&& text::decimal(r.max_keys as nat).len() <= 10
}

proof fn list_lines_are(rules: Seq<FlowRuleView>, n: nat, i: int)
    requires
        n <= rules.len(),
        0 <= i < n,
        forall|k: int| 0 <= k < rules.len() ==> rule_fits(#[trigger] rules[k]),
    ensures
        list_lines(rules, n).len() == 63 * n,
        line_at(list_lines(rules, n), 63, i) == list_line(
            rules[i].name,
            joined(field_texts(rules[i].fields), ","@),
            text::decimal(rules[i].max_keys as nat),
        ),
    decreases n,
{
    let r = rules[n - 1];
    assert(rule_fits(r));
    let fields = joined(field_texts(r.fields), ","@);
    let last = list_line(r.name, fields, text::decimal(r.max_keys as nat));
    let before = list_lines(rules, (n - 1) as nat);
    list_line_columns(r.name, fields, text::decimal(r.max_keys as nat));
    if n > 1 {
        list_lines_are(rules, (n - 1) as nat, if i < n - 1 { i } else { 0 });
    }
    assert(before.len() == 63 * (n - 1));
    if i < n - 1 {
        assert(line_at(before + last, 63, i) =~= line_at(before, 63, i));
    } else {
        assert(line_at(before + last, 63, i) =~= last);
    }
}

/// Each rule stands on a line of its own, its name, its fields and its keys under their headings.
pub proof fn rules_stand_under_their_headings(o: FlowRuleListOutput, i: int)
    requires
        0 <= i < o.0@.len(),
        forall|k: int| 0 <= k < o.0@.len() ==> rule_fits((#[trigger] o.0@[k])@),
    ensures
        ({
            let head = line_at(o.table(), 63, 0);
            let line = line_at(o.table(), 63, i + 1);
            let r = o.0@[i];
            &&& o.table().len() == 63 * (o.0@.len() + 1)
            &&& head.subrange(0, 20) == text::padded_right("NAME"@, 20)
            &&& line.subrange(0, 20) == text::padded_right(r.name@, 20)
            &&& head.subrange(21, 51) == text::padded_right("FIELDS"@, 30)
            &&& line.subrange(21, 51) == text::padded_right(
                joined(field_texts(r.fields@), seq![',']),
                30,
            )
            &&& head.subrange(52, 62) == text::padded_left("MAX_KEYS"@, 10)
            &&& line.subrange(52, 62) == text::padded_left(text::decimal(r.max_keys as nat), 10)
        }),
{
    reveal_strlit("NAME");
    reveal_strlit("FIELDS");
    reveal_strlit("MAX_KEYS");
    reveal_strlit(",");
    assert(","@ =~= seq![',']);
    let rules = protocol::rule_data_views(o.0@);
    let n = rules.len();
    assert forall|k: int| 0 <= k < rules.len() implies rule_fits(#[trigger] rules[k]) by {
        assert(rule_fits(o.0@[k]@));
    }
    let r = rules[i];
    assert(r == o.0@[i]@);
    assert(rule_fits(r));
    let head = list_line("NAME"@, "FIELDS"@, "MAX_KEYS"@);
    list_line_columns("NAME"@, "FIELDS"@, "MAX_KEYS"@);
    list_lines_are(rules, n, i);
    list_line_columns(
        r.name,
        joined(field_texts(r.fields), ","@),
        text::decimal(r.max_keys as nat),
    );
    let body = list_lines(rules, n);
    assert(o.table() == head + body);
    assert(line_at(head + body, 63, 0) =~= head);
    assert(line_at(head + body, 63, i + 1) =~= line_at(body, 63, i));
}

/// Whether a text stands somewhere in another.
pub open spec fn holds(t: Seq<char>, part: Seq<char>) -> bool {
    exists|p: int|
        0 <= p && p + part.len() <= t.len() && #[trigger] t.subrange(p, p + part.len()) == part
}

proof fn holds_between(a: Seq<char>, part: Seq<char>, b: Seq<char>)
    ensures
        holds(a + part + b, part),
{
    let t = a + part + b;
    assert(t.subrange(a.len() as int, a.len() as int + part.len()) =~= part);
}

proof fn holds_longer(t: Seq<char>, more: Seq<char>, part: Seq<char>)
    requires
        holds(t, part),
    ensures
        holds(t + more, part),
{
    let p = choose|p: int|
        0 <= p && p + part.len() <= t.len() && #[trigger] t.subrange(p, p + part.len()) == part;
    assert((t + more).subrange(p, p + part.len()) =~= part);
}

proof fn holds_labelled(
    a: Seq<char>,
    label: Seq<char>,
    value: Seq<char>,
    next: Seq<char>,
    word: Seq<char>,
)
    requires
        label.len() >= word.len(),
        label.skip(label.len() - word.len()) == word,
        next.len() > 0,
        next[0] == '\n',
    ensures
        holds(a + label + value + next, word + value + seq!['\n']),
{
    let lead = label.take(label.len() - word.len());
    let part = word + value + seq!['\n'];
    assert(label =~= lead + word);
    assert(a + label + value + next =~= (a + lead) + part + next.drop_first());
    holds_between(a + lead, part, next.drop_first());
}

/// A rule that is shown tells each of its counters behind the word for it.
pub proof fn details_are_labelled(d: DetailView)
    ensures
        holds(
            detail_text(d),
            "Packets:    "@ + text::decimal(d.counters.packets as nat) + seq!['\n'],
        ),
        holds(
            detail_text(d),
            "Bytes:      "@ + text::decimal(d.counters.bytes as nat) + seq!['\n'],
        ),
        holds(
            detail_text(d),
            "Evictions:  "@ + text::decimal(d.counters.evictions as nat) + seq!['\n'],
        ),
        holds(
            detail_text(d),
            "Drops:      "@ + text::decimal(d.counters.drops as nat) + seq!['\n'],
        ),
        holds(
            detail_text(d),
            "Max keys:   "@ + text::decimal(d.rule.max_keys as nat) + seq!['\n'],
        ),
        holds(detail_text(d), "Name:       "@ + d.rule.name + seq!['\n']),
{
    labels_end_in_words();
    let keys = text::decimal(d.rule.max_keys as nat);
    let packets = text::decimal(d.counters.packets as nat);
    let bytes = text::decimal(d.counters.bytes as nat);
    let evictions = text::decimal(d.counters.evictions as nat);
    let drops = text::decimal(d.counters.drops as nat);
    let nl = seq!['\n'];
    let x1 = "Name:       "@ + d.rule.name;
    let x2 = x1 + "\nFields:     "@;
    let x3 = x2 + joined(field_texts(d.rule.fields), ", "@);
    let x4 = x3 + "\nMax keys:   "@;
    let x5 = x4 + keys;
    let x6 = x5 + "\nCounters:\n  Packets:    "@;
    let x7 = x6 + packets;
    let x8 = x7 + "\n  Bytes:      "@;
    let x9 = x8 + bytes;
    let x10 = x9 + "\n  Evictions:  "@;
    let x11 = x10 + evictions;
    let x12 = x11 + "\n  Drops:      "@;
    let x13 = x12 + drops;
    let x14 = x13 + "\n"@;
    let part0 = "Name:       "@ + d.rule.name + nl;
    assert(Seq::<char>::empty() + "Name:       "@ =~= "Name:       "@);
    holds_labelled(Seq::empty(), "Name:       "@, d.rule.name, "\nFields:     "@, "Name:       "@);
    holds_longer(x2, joined(field_texts(d.rule.fields), ", "@), part0);
    holds_longer(x3, "\nMax keys:   "@, part0);
    holds_longer(x4, keys, part0);
    holds_longer(x5, "\nCounters:\n  Packets:    "@, part0);
    holds_longer(x6, packets, part0);
    holds_longer(x7, "\n  Bytes:      "@, part0);
    holds_longer(x8, bytes, part0);
    holds_longer(x9, "\n  Evictions:  "@, part0);
    holds_longer(x10, evictions, part0);
    holds_longer(x11, "\n  Drops:      "@, part0);
    holds_longer(x12, drops, part0);
    holds_longer(x13, "\n"@, part0);
    let part4 = "Max keys:   "@ + keys + nl;
    holds_labelled(x3, "\nMax keys:   "@, keys, "\nCounters:\n  Packets:    "@, "Max keys:   "@);
    holds_longer(x6, packets, part4);
    holds_longer(x7, "\n  Bytes:      "@, part4);
    holds_longer(x8, bytes, part4);
    holds_longer(x9, "\n  Evictions:  "@, part4);
    holds_longer(x10, evictions, part4);
    holds_longer(x11, "\n  Drops:      "@, part4);
    holds_longer(x12, drops, part4);
    holds_longer(x13, "\n"@, part4);
    let part6 = "Packets:    "@ + packets + nl;
    holds_labelled(x5, "\nCounters:\n  Packets:    "@, packets, "\n  Bytes:      "@, "Packets:    "@);
    holds_longer(x8, bytes, part6);
    holds_longer(x9, "\n  Evictions:  "@, part6);
    holds_longer(x10, evictions, part6);
    holds_longer(x11, "\n  Drops:      "@, part6);
    holds_longer(x12, drops, part6);
    holds_longer(x13, "\n"@, part6);
    let part8 = "Bytes:      "@ + bytes + nl;
    holds_labelled(x7, "\n  Bytes:      "@, bytes, "\n  Evictions:  "@, "Bytes:      "@);
    holds_longer(x10, evictions, part8);
    holds_longer(x11, "\n  Drops:      "@, part8);
    holds_longer(x12, drops, part8);
    holds_longer(x13, "\n"@, part8);
    let part10 = "Evictions:  "@ + evictions + nl;
    holds_labelled(x9, "\n  Evictions:  "@, evictions, "\n  Drops:      "@, "Evictions:  "@);
    holds_longer(x12, drops, part10);
    holds_longer(x13, "\n"@, part10);
    let part12 = "Drops:      "@ + drops + nl;
    holds_labelled(x11, "\n  Drops:      "@, drops, "\n"@, "Drops:      "@);
    if d.flows.len() > 0 {
        let y1 = x14 + "Flows ("@;
        let y2 = y1 + text::decimal(d.flows.len());
        let y3 = y2 + "):\n"@;
        let lines = flow_lines(d.flows, d.flows.len());
        holds_longer(x14, "Flows ("@, part0);
        holds_longer(y1, text::decimal(d.flows.len()), part0);
        holds_longer(y2, "):\n"@, part0);
        holds_longer(y3, lines, part0);
        holds_longer(x14, "Flows ("@, part4);
        holds_longer(y1, text::decimal(d.flows.len()), part4);
        holds_longer(y2, "):\n"@, part4);
        holds_longer(y3, lines, part4);
        holds_longer(x14, "Flows ("@, part6);
        holds_longer(y1, text::decimal(d.flows.len()), part6);
        holds_longer(y2, "):\n"@, part6);
        holds_longer(y3, lines, part6);
        holds_longer(x14, "Flows ("@, part8);
        holds_longer(y1, text::decimal(d.flows.len()), part8);
        holds_longer(y2, "):\n"@, part8);
        holds_longer(y3, lines, part8);
        holds_longer(x14, "Flows ("@, part10);
        holds_longer(y1, text::decimal(d.flows.len()), part10);
        holds_longer(y2, "):\n"@, part10);
        holds_longer(y3, lines, part10);
        holds_longer(x14, "Flows ("@, part12);
        holds_longer(y1, text::decimal(d.flows.len()), part12);
        holds_longer(y2, "):\n"@, part12);
        holds_longer(y3, lines, part12);
    }
}

proof fn labels_end_in_words()
    ensures
        "Name:       "@.len() >= "Name:       "@.len(),
        "Name:       "@.skip("Name:       "@.len() - "Name:       "@.len()) == "Name:       "@,
        "\nMax keys:   "@.len() >= "Max keys:   "@.len(),
        "\nMax keys:   "@.skip("\nMax keys:   "@.len() - "Max keys:   "@.len()) == "Max keys:   "@,
        "\nCounters:\n  Packets:    "@.len() >= "Packets:    "@.len(),
        "\nCounters:\n  Packets:    "@.skip("\nCounters:\n  Packets:    "@.len() - "Packets:    "@.len()) == "Packets:    "@,
        "\n  Bytes:      "@.len() >= "Bytes:      "@.len(),
        "\n  Bytes:      "@.skip("\n  Bytes:      "@.len() - "Bytes:      "@.len()) == "Bytes:      "@,
        "\n  Evictions:  "@.len() >= "Evictions:  "@.len(),
        "\n  Evictions:  "@.skip("\n  Evictions:  "@.len() - "Evictions:  "@.len()) == "Evictions:  "@,
        "\n  Drops:      "@.len() >= "Drops:      "@.len(),
        "\n  Drops:      "@.skip("\n  Drops:      "@.len() - "Drops:      "@.len()) == "Drops:      "@,
        "\nFields:     "@.len() > 0,
        "\nFields:     "@[0] == '\n',
        "\nMax keys:   "@.len() > 0,
        "\nMax keys:   "@[0] == '\n',
        "\nCounters:\n  Packets:    "@.len() > 0,
        "\nCounters:\n  Packets:    "@[0] == '\n',
        "\n  Bytes:      "@.len() > 0,
        "\n  Bytes:      "@[0] == '\n',
        "\n  Evictions:  "@.len() > 0,
        "\n  Evictions:  "@[0] == '\n',
        "\n  Drops:      "@.len() > 0,
        "\n  Drops:      "@[0] == '\n',
        "\n"@.len() > 0,
        "\n"@[0] == '\n',
{
    reveal_strlit("\nFields:     ");
    reveal_strlit("\n");
    reveal_strlit("Name:       ");
    reveal_strlit("Max keys:   ");
    reveal_strlit("Packets:    ");
    reveal_strlit("Bytes:      ");
    reveal_strlit("Evictions:  ");
    reveal_strlit("Drops:      ");
    reveal_strlit("\nMax keys:   ");
    reveal_strlit("\nCounters:\n  Packets:    ");
    reveal_strlit("\n  Bytes:      ");
    reveal_strlit("\n  Evictions:  ");
    reveal_strlit("\n  Drops:      ");
    assert("Name:       "@.skip("Name:       "@.len() - "Name:       "@.len()) =~= "Name:       "@);
    assert("\nMax keys:   "@.skip("\nMax keys:   "@.len() - "Max keys:   "@.len()) =~= "Max keys:   "@);
    assert("\nCounters:\n  Packets:    "@.skip("\nCounters:\n  Packets:    "@.len() - "Packets:    "@.len()) =~= "Packets:    "@);
    assert("\n  Bytes:      "@.skip("\n  Bytes:      "@.len() - "Bytes:      "@.len()) =~= "Bytes:      "@);
    assert("\n  Evictions:  "@.skip("\n  Evictions:  "@.len() - "Evictions:  "@.len()) =~= "Evictions:  "@);
    assert("\n  Drops:      "@.skip("\n  Drops:      "@.len() - "Drops:      "@.len()) =~= "Drops:      "@);
}

/// The line of a flow tells its packets and its bytes, each behind the word for it.
pub proof fn flows_are_labelled(f: EntryView)
    ensures
        holds(flow_line(f), "Pkts: "@ + text::decimal(f.packets as nat) + "  "@),
        holds(flow_line(f), "Bytes: "@ + text::decimal(f.bytes as nat) + "\n"@),
        holds(flow_line(f), "Key: "@ + joined(f.key, ","@) + "  "@),
{
    reveal_strlit("  ");
    reveal_strlit("Key: ");
    reveal_strlit("  Key: ");
    reveal_strlit("Pkts: ");
    reveal_strlit("  Pkts: ");
    reveal_strlit("Bytes: ");
    reveal_strlit("  Bytes: ");
    let key = joined(f.key, ","@);
    let packets = text::decimal(f.packets as nat);
    let bytes = text::decimal(f.bytes as nat);
    let t = flow_line(f);
    assert("  Key: "@ =~= "  "@ + "Key: "@);
    assert("  Pkts: "@ =~= "  "@ + "Pkts: "@);
    assert("  Bytes: "@ =~= "  "@ + "Bytes: "@);
    let c = "Bytes: "@ + bytes + "\n"@;
    let b = "Pkts: "@ + packets + "  "@;
    let a = "Key: "@ + key + "  "@;
    assert(t =~= "  "@ + a + (b + c));
    assert(t =~= ("  "@ + a) + b + c);
    assert(t =~= ("  "@ + a + b) + c + Seq::<char>::empty());
    holds_between("  "@, a, b + c);
    holds_between("  "@ + a, b, c);
    holds_between("  "@ + a + b, c, Seq::empty());
}

/// No two fields are shown by the same word.
pub proof fn fields_are_shown_apart(a: Field, b: Field)
    requires
        field_text(a) == field_text(b),
    ensures
        a == b,
{
    reveal_strlit("srcip");
    reveal_strlit("dstip");
    reveal_strlit("ipproto");
    reveal_strlit("dscp");
    reveal_strlit("mirrorsrcip");
    reveal_strlit("srcport");
    reveal_strlit("dstport");
    let s = field_text(a);
    let t = field_text(b);
    assert(s.len() == t.len());
    assert(s[0] == t[0]);
    assert(s[1] == t[1]);
}

/// An address, a port, a protocol and a class are shown by words that begin as their names do.
pub proof fn fields_are_shown_by_name(f: Field)
    ensures
        f is SrcIp ==> field_text(f) == "srcip"@,
        f is DstIp ==> field_text(f) == "dstip"@,
        f is IpProto ==> field_text(f) == "ipproto"@,
        f is Dscp ==> field_text(f) == "dscp"@,
        f is MirrorSrcIp ==> field_text(f) == "mirrorsrcip"@,
        f is SrcPort ==> field_text(f) == "srcport"@,
        f is DstPort ==> field_text(f) == "dstport"@,
{
}

} // verus!
