//! Subscription channel names and the subscribe requests that carry them.
use vstd::prelude::*;
use crate::text::{digit_char, padded, push_char, push_padded, push_text};

verus! {

/// The marker in a channel template that each instrument replaces.
pub open spec fn placeholder() -> Seq<char> {
    seq!['{', 'i', 'n', 's', 't', 'r', 'u', 'm', 'e', 'n', 't', '}']
}

/// `t` with every `{instrument}`, read left to right, replaced by `x`.
pub open spec fn fill(t: Seq<char>, x: Seq<char>) -> Seq<char>
    decreases t.len(),
{
    if t.len() == 0 {
        Seq::empty()
    } else if t.len() >= 12 && t.subrange(0, 12) == placeholder() {
        x + fill(t.skip(12), x)
    } else {
        seq![t[0]] + fill(t.skip(1), x)
    }
}

fn placeholder_at(t: &str, len: usize, i: usize) -> (r: bool)
    requires
        len == t@.len(),
        i <= len,
    ensures
        r == (i + 12 <= len && t@.subrange(i as int, i + 12) == placeholder()),
{
    if len - i < 12 {
        return false;
    }
    let pat = "{instrument}";
    proof {
        reveal_strlit("{instrument}");
    }
    assert(pat@ =~= placeholder());
    let mut k: usize = 0;
    while k < 12
        invariant
            i + 12 <= len,
            len == t@.len(),
            pat@ == placeholder(),
            k <= 12,
            forall|j: int| 0 <= j < k ==> t@[i + j] == placeholder()[j],
        decreases 12 - k,
    {
        if t.get_char(i + k) != pat.get_char(k) {
            assert(t@.subrange(i as int, i + 12)[k as int] != placeholder()[k as int]);
            return false;
        }
        k = k + 1;
    }
    assert(t@.subrange(i as int, i + 12) =~= placeholder());
    true
}

/// One channel name: the template with the instrument put in.
pub fn channel_name(template: &str, instrument: &str) -> (r: String)
    ensures
        r@ == fill(template@, instrument@),
{
    let len = template.unicode_len();
    let mut out = String::new();
    let mut i: usize = 0;
    assert(template@.skip(0) =~= template@);
    assert(out@ + fill(template@, instrument@) =~= fill(template@, instrument@));
    while i < len
        invariant
            len == template@.len(),
            i <= len,
            out@ + fill(template@.skip(i as int), instrument@) == fill(template@, instrument@),
        decreases len - i,
    {
        let ghost rest = template@.skip(i as int);
        if placeholder_at(template, len, i) {
            assert(rest.subrange(0, 12) =~= template@.subrange(i as int, i + 12));
            assert(rest.skip(12) =~= template@.skip(i + 12));
            push_text(&mut out, instrument);
            i = i + 12;
        } else {
            assert(rest.len() >= 12 ==> rest.subrange(0, 12) =~= template@.subrange(
                i as int,
                i + 12,
            ));
            assert(rest.skip(1) =~= template@.skip(i + 1));
            let c = template.get_char(i);
            push_char(&mut out, c);
            i = i + 1;
        }
    }
    assert(template@.skip(len as int) =~= Seq::<char>::empty());
    out
}

/// The views of a list of strings.
pub open spec fn views(v: Seq<String>) -> Seq<Seq<char>> {
    v.map_values(|s: String| s@)
}

/// The channel names for a list of instruments, one for each, in order.
pub open spec fn channel_names_spec(t: Seq<char>, xs: Seq<Seq<char>>) -> Seq<Seq<char>> {
    xs.map_values(|x: Seq<char>| fill(t, x))
}

/// Fills the template once for each instrument, keeping their order.
pub fn channel_names(template: &str, instruments: &Vec<String>) -> (r: Vec<String>)
    ensures
        views(r@) == channel_names_spec(template@, views(instruments@)),
{
    let mut out: Vec<String> = Vec::new();
    let mut i: usize = 0;
    while i < instruments.len()
        invariant
            i <= instruments@.len(),
            out@.len() == i,
            forall|j: int| 0 <= j < i ==> #[trigger] out@[j]@ == fill(template@, instruments@[j]@),
        decreases instruments.len() - i,
    {
        let name = channel_name(template, instruments[i].as_str());
        out.push(name);
        i = i + 1;
    }
    assert(views(out@) =~= channel_names_spec(template@, views(instruments@)));
    out
}

/// Running the builder twice on the same inputs gives the same names.
pub proof fn lemma_channel_names_deterministic(
    t: Seq<char>,
    xs: Seq<Seq<char>>,
    a: Seq<Seq<char>>,
    b: Seq<Seq<char>>,
)
    requires
        a == channel_names_spec(t, xs),
        b == channel_names_spec(t, xs),
    ensures
        a == b,
        a.len() == xs.len(),
        forall|i: int| 0 <= i < xs.len() ==> #[trigger] a[i] == fill(t, xs[i]),
{
}

/// The lower hex digit character of a value below 16.
pub open spec fn hex_char(d: nat) -> char {
    if d < 10 {
        digit_char(d)
    } else if d == 10 {
        'a'
    } else if d == 11 {
        'b'
    } else if d == 12 {
        'c'
    } else if d == 13 {
        'd'
    } else if d == 14 {
        'e'
    } else {
        'f'
    }
}

/// A character as it stands inside a JSON string.
pub open spec fn escaped_char(c: char) -> Seq<char> {
    if c == '"' || c == '\\' {
        seq!['\\', c]
    } else if (c as u32) < 0x20 {
        seq!['\\', 'u', '0', '0', hex_char((c as u32 / 16) as nat), hex_char((c as u32 % 16) as nat)]
    } else {
        seq![c]
    }
}

/// Every character of `s` escaped for a JSON string.
pub open spec fn escaped(s: Seq<char>) -> Seq<char>
    decreases s.len(),
{
    if s.len() == 0 {
        Seq::empty()
    } else {
        escaped(s.drop_last()) + escaped_char(s.last())
    }
}

/// `s` as a JSON string literal.
pub open spec fn quoted(s: Seq<char>) -> Seq<char> {
    seq!['"'] + escaped(s) + seq!['"']
}

/// JSON string literals separated by commas.
pub open spec fn joined(v: Seq<Seq<char>>) -> Seq<char>
    decreases v.len(),
{
    if v.len() == 0 {
        Seq::empty()
    } else if v.len() == 1 {
        quoted(v[0])
    } else {
        joined(v.drop_last()) + seq![','] + quoted(v.last())
    }
}

pub open spec fn request_head() -> Seq<char> {
    "{\"jsonrpc\":\"2.0\",\"method\":\"public/subscribe\",\"id\":"@
}

pub open spec fn request_middle() -> Seq<char> {
    ",\"params\":{\"channels\":["@
}

pub open spec fn request_tail() -> Seq<char> {
    "]}}"@
}

/// The subscribe request with the given id for the given channels.
pub open spec fn request_text(id: nat, channels: Seq<Seq<char>>) -> Seq<char> {
    request_head() + padded(id, 1) + request_middle() + joined(channels) + request_tail()
}

fn hex(d: u32) -> (c: char)
    requires
        d < 16,
    ensures
        c == hex_char(d as nat),
{
    match d {
        0 => '0',
        1 => '1',
        2 => '2',
        3 => '3',
        4 => '4',
        5 => '5',
        6 => '6',
        7 => '7',
        8 => '8',
        9 => '9',
        10 => 'a',
        11 => 'b',
        12 => 'c',
        13 => 'd',
        14 => 'e',
        _ => 'f',
    }
}

fn push_escaped_char(s: &mut String, c: char)
    ensures
        final(s)@ == old(s)@ + escaped_char(c),
{
    let ghost start = s@;
    if c == '"' || c == '\\' {
        push_char(s, '\\');
        push_char(s, c);
    } else if (c as u32) < 0x20 {
        push_char(s, '\\');
        push_char(s, 'u');
        push_char(s, '0');
        push_char(s, '0');
        push_char(s, hex(c as u32 / 16));
        push_char(s, hex(c as u32 % 16));
    } else {
        push_char(s, c);
    }
    assert(s@ =~= start + escaped_char(c));
}

fn push_quoted(s: &mut String, t: &str)
    ensures
        final(s)@ == old(s)@ + quoted(t@),
{
    let ghost start = s@;
    push_char(s, '"');
    let len = t.unicode_len();
    let mut i: usize = 0;
    while i < len
        invariant
            len == t@.len(),
            i <= len,
            s@ == start + seq!['"'] + escaped(t@.take(i as int)),
        decreases len - i,
    {
        let c = t.get_char(i);
        push_escaped_char(s, c);
        assert(t@.take(i + 1).drop_last() =~= t@.take(i as int));
        i = i + 1;
    }
    assert(t@.take(len as int) =~= t@);
    push_char(s, '"');
    assert(s@ =~= start + quoted(t@));
}

/// The subscribe request for `channels` under request id `id`:
/// `{"jsonrpc":"2.0","method":"public/subscribe","id":ID,"params":{"channels":[...]}}`.
pub fn subscribe_request(id: u64, channels: &Vec<String>) -> (r: String)
    ensures
        r@ == request_text(id as nat, views(channels@)),
{
    let mut s = String::new();
    push_text(&mut s, "{\"jsonrpc\":\"2.0\",\"method\":\"public/subscribe\",\"id\":");
    push_padded(&mut s, id, 1);
    push_text(&mut s, ",\"params\":{\"channels\":[");
    let ghost start = s@;
    let mut i: usize = 0;
    while i < channels.len()
        invariant
            i <= channels@.len(),
            s@ == start + joined(views(channels@).take(i as int)),
        decreases channels.len() - i,
    {
        if i > 0 {
            push_char(&mut s, ',');
        }
        push_quoted(&mut s, channels[i].as_str());
        let ghost taken = views(channels@).take(i + 1);
        assert(taken.drop_last() =~= views(channels@).take(i as int));
        assert(s@ =~= start + joined(taken));
        i = i + 1;
    }
    assert(views(channels@).take(channels@.len() as int) =~= views(channels@));
    push_text(&mut s, "]}}");
    assert(s@ =~= request_text(id as nat, views(channels@)));
    s
}

/// Copies a list of strings.
pub fn copy_all(v: &Vec<String>) -> (r: Vec<String>)
    ensures
        views(r@) == views(v@),
{
    let mut out: Vec<String> = Vec::new();
    let mut i: usize = 0;
    while i < v.len()
        invariant
            i <= v@.len(),
            out@.len() == i,
            forall|j: int| 0 <= j < i ==> #[trigger] out@[j]@ == v@[j]@,
        decreases v.len() - i,
    {
        out.push(v[i].clone());
        i = i + 1;
    }
    assert(views(out@) =~= views(v@));
    out
}

/// One group of channels: its request id, the channel template, and the
/// instruments it covers (`None`: the instruments discovered before the
/// session starts).
pub struct ChannelGroup {
    pub id: u64,
    pub template: String,
    pub instruments: Option<Vec<String>>,
}

/// The subscribe requests that an exchange integration sends on each open:
/// one per group, or, with `batch_id`, a single request under that id that
/// carries the channels of all groups.
pub struct SubscriptionPlan {
    pub groups: Vec<ChannelGroup>,
    pub batch_id: Option<u64>,
}

pub open spec fn group_instruments(g: ChannelGroup, discovered: Seq<Seq<char>>) -> Seq<Seq<char>> {
    match g.instruments {
        Some(v) => views(v@),
        None => discovered,
    }
}

/// The channel names of one group.
pub open spec fn group_channels(g: ChannelGroup, discovered: Seq<Seq<char>>) -> Seq<Seq<char>> {
    channel_names_spec(g.template@, group_instruments(g, discovered))
}

/// The channel names of all groups, group after group.
pub open spec fn all_channels(groups: Seq<ChannelGroup>, discovered: Seq<Seq<char>>) -> Seq<
    Seq<char>,
>
    decreases groups.len(),
{
    if groups.len() == 0 {
        Seq::empty()
    } else {
        all_channels(groups.drop_last(), discovered) + group_channels(groups.last(), discovered)
    }
}

pub open spec fn group_request(g: ChannelGroup, discovered: Seq<Seq<char>>) -> Seq<char> {
    request_text(g.id as nat, group_channels(g, discovered))
}

/// The requests of a plan, in the plan's order.
pub open spec fn plan_requests(plan: SubscriptionPlan, discovered: Seq<Seq<char>>) -> Seq<
    Seq<char>,
> {
    match plan.batch_id {
        None => plan.groups@.map_values(|g: ChannelGroup| group_request(g, discovered)),
        Some(id) => seq![request_text(id as nat, all_channels(plan.groups@, discovered))],
    }
}

fn group_names(g: &ChannelGroup, discovered: &Vec<String>) -> (r: Vec<String>)
    ensures
        views(r@) == group_channels(*g, views(discovered@)),
{
    match &g.instruments {
        Some(v) => channel_names(g.template.as_str(), v),
        None => channel_names(g.template.as_str(), discovered),
    }
}

impl SubscriptionPlan {
    /// The subscribe requests for the discovered instruments.
    pub fn requests(&self, discovered: &Vec<String>) -> (r: Vec<String>)
        ensures
            views(r@) == plan_requests(*self, views(discovered@)),
    {
        let ghost d = views(discovered@);
        match self.batch_id {
            None => {
                let mut out: Vec<String> = Vec::new();
                let mut i: usize = 0;
                while i < self.groups.len()
                    invariant
                        d == views(discovered@),
                        i <= self.groups@.len(),
                        out@.len() == i,
                        forall|j: int|
                            0 <= j < i ==> #[trigger] out@[j]@ == group_request(self.groups@[j], d),
                    decreases self.groups.len() - i,
                {
                    let g = &self.groups[i];
                    let names = group_names(g, discovered);
                    let req = subscribe_request(g.id, &names);
                    out.push(req);
                    i = i + 1;
                }
                assert(views(out@) =~= plan_requests(*self, d));
                out
            },
            Some(id) => {
                let mut all: Vec<String> = Vec::new();
                let mut i: usize = 0;
                assert(self.groups@.take(0) =~= Seq::<ChannelGroup>::empty());
                assert(views(all@) =~= all_channels(self.groups@.take(0), d));
                while i < self.groups.len()
                    invariant
                        d == views(discovered@),
                        i <= self.groups@.len(),
                        views(all@) == all_channels(self.groups@.take(i as int), d),
                    decreases self.groups.len() - i,
                {
                    let mut names = group_names(&self.groups[i], discovered);
                    let ghost before = all@;
                    let ghost added = names@;
                    all.append(&mut names);
                    assert(all@ == before + added);
                    assert(views(before + added) =~= views(before) + views(added));
                    assert(self.groups@.take(i + 1).drop_last() =~= self.groups@.take(i as int));
                    i = i + 1;
                }
                assert(self.groups@.take(self.groups@.len() as int) =~= self.groups@);
                let req = subscribe_request(id, &all);
                let out = vec![req];
                assert(views(out@) =~= plan_requests(*self, d));
                out
            },
        }
    }
}

/// Whether the group covers exactly the instruments `xs`, fixed in advance.
pub open spec fn fixed_to(g: ChannelGroup, xs: Seq<Seq<char>>) -> bool {
    match g.instruments {
        Some(v) => views(v@) == xs,
        None => false,
    }
}

fn group(id: u64, template: &str, instruments: Option<Vec<String>>) -> (r: ChannelGroup)
    ensures
        r.id == id,
        r.template@ == template@,
        r.instruments == instruments,
{
    ChannelGroup { id, template: String::from_str(template), instruments }
}

/// The price indices that the Deribit integration follows.
pub fn deribit_indices() -> (r: Vec<String>)
    ensures
        views(r@) == seq!["btc_usd"@, "ethc_usd"@],
{
    let r = vec![String::from_str("btc_usd"), String::from_str("ethc_usd")];
    assert(views(r@) =~= seq!["btc_usd"@, "ethc_usd"@]);
    r
}

/// The Deribit integration: announcements, then the book, perpetual and trade
/// feeds of every discovered instrument, then four index feeds.
pub fn deribit_plan() -> (r: SubscriptionPlan)
    ensures
        r.batch_id is None,
        r.groups@.len() == 8,
        forall|i: int| 0 <= i < 8 ==> #[trigger] r.groups@[i].id == i + 1,
        r.groups@[0].template@ == "{instrument}"@,
        fixed_to(r.groups@[0], seq!["announcements"@]),
        r.groups@[1].template@ == "book.{instrument}.raw"@,
        r.groups@[2].template@ == "perpetual.{instrument}.raw"@,
        r.groups@[3].template@ == "trades.{instrument}.raw"@,
        forall|i: int| 1 <= i < 4 ==> #[trigger] r.groups@[i].instruments is None,
        r.groups@[4].template@ == "deribit_price_index.{instrument}"@,
        r.groups@[5].template@ == "deribit_price_ranking.{instrument}"@,
        r.groups@[6].template@ == "estimated_expiration_price.{instrument}"@,
        r.groups@[7].template@ == "markprice.options.{instrument}"@,
        forall|i: int|
            4 <= i < 8 ==> fixed_to(#[trigger] r.groups@[i], seq!["btc_usd"@, "ethc_usd"@]),
{
    let announcements = vec![String::from_str("announcements")];
    assert(views(announcements@) =~= seq!["announcements"@]);
    let groups = vec![
        group(1, "{instrument}", Some(announcements)),
        group(2, "book.{instrument}.raw", None),
        group(3, "perpetual.{instrument}.raw", None),
        group(4, "trades.{instrument}.raw", None),
        group(5, "deribit_price_index.{instrument}", Some(deribit_indices())),
        group(6, "deribit_price_ranking.{instrument}", Some(deribit_indices())),
        group(7, "estimated_expiration_price.{instrument}", Some(deribit_indices())),
        group(8, "markprice.options.{instrument}", Some(deribit_indices())),
    ];
    SubscriptionPlan { groups, batch_id: None }
}

} // verus!
