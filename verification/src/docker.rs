//! Container bridge state logic: how one poll of the container runtime's
//! list-containers call — success, explicit error, timeout, or an
//! unavailable runtime — transforms the published container list and error
//! state.  The poll itself (the asynchronous runtime call under its hard
//! timeout) happens outside this crate; the caller hands its outcome in.

use vstd::prelude::*;
use crate::i18n::{Language, t, translation_spec};
use crate::textparse::views_of;

verus! {

/// A decimal digit as a character.
pub open spec fn dec_digit(d: int) -> char {
    if d == 0 { '0' }
    else if d == 1 { '1' }
    else if d == 2 { '2' }
    else if d == 3 { '3' }
    else if d == 4 { '4' }
    else if d == 5 { '5' }
    else if d == 6 { '6' }
    else if d == 7 { '7' }
    else if d == 8 { '8' }
    else { '9' }
}

/// The decimal digits of a number, most significant first.
pub open spec fn dec_of(n: nat) -> Seq<char>
    decreases n,
{
    if n < 10 {
        seq![dec_digit(n as int)]
    } else {
        dec_of(n / 10) + seq![dec_digit((n % 10) as int)]
    }
}

/// One decimal digit as a string slice.
fn digit_str(d: u64) -> (r: &'static str)
    requires
        d < 10,
    ensures
        r@ == seq![dec_digit(d as int)],
{
    proof {
        reveal_strlit("0");
        reveal_strlit("1");
        reveal_strlit("2");
        reveal_strlit("3");
        reveal_strlit("4");
        reveal_strlit("5");
        reveal_strlit("6");
        reveal_strlit("7");
        reveal_strlit("8");
        reveal_strlit("9");
    }
    if d == 0 { "0" }
    else if d == 1 { "1" }
    else if d == 2 { "2" }
    else if d == 3 { "3" }
    else if d == 4 { "4" }
    else if d == 5 { "5" }
    else if d == 6 { "6" }
    else if d == 7 { "7" }
    else if d == 8 { "8" }
    else { "9" }
}

/// Writes a number in decimal.
pub fn u64_to_string(n: u64) -> (r: String)
    ensures
        r@ == dec_of(n as nat),
    decreases n,
{
    if n < 10 {
        digit_str(n).to_owned()
    } else {
        u64_to_string(n / 10).concat(digit_str(n % 10))
    }
}

/// The characters left after removing every leading separator.
pub open spec fn strip_slashes(s: Seq<char>) -> Seq<char>
    decreases s.len(),
{
    if s.len() > 0 && s[0] == '/' {
        strip_slashes(s.drop_first())
    } else {
        s
    }
}

/// Index of the first character that is not a leading separator.
fn first_non_slash(s: &str) -> (i: usize)
    ensures
        i <= s@.len(),
        strip_slashes(s@) == strip_slashes(s@.skip(i as int)),
        i < s@.len() ==> s@[i as int] != '/',
{
    let n = s.unicode_len();
    let mut i: usize = 0;
    proof {
        assert(s@.skip(0) =~= s@);
    }
    while i < n
        invariant
            n == s@.len(),
            i <= n,
            strip_slashes(s@) == strip_slashes(s@.skip(i as int)),
        decreases n - i,
    {
        proof {
            assert(s@.skip(i as int)[0] == s@[i as int]);
        }
        if s.get_char(i) != '/' {
            return i;
        }
        proof {
            assert(s@.skip(i as int).drop_first() =~= s@.skip(i + 1));
        }
        i += 1;
    }
    i
}

/// Removes every leading `/` from a container name as reported.
pub fn strip_leading_slashes(s: &str) -> (r: String)
    ensures
        r@ == strip_slashes(s@),
{
    let n = s.unicode_len();
    let i = first_non_slash(s);
    proof {
        if i < n {
            assert(s@.skip(i as int)[0] == s@[i as int]);
        } else {
            assert(s@.skip(i as int).len() == 0);
        }
        assert(strip_slashes(s@.skip(i as int)) == s@.skip(i as int));
        assert(s@.subrange(i as int, n as int) =~= s@.skip(i as int));
    }
    s.substring_char(i, n).to_owned()
}

/// Whether a character counts as blank space in a log line.
pub open spec fn is_blank_char(c: char) -> bool {
    c == ' ' || c == '\t' || c == '\n' || c == '\r'
}

/// Whether a log line holds nothing but blank space.
pub open spec fn is_blank(s: Seq<char>) -> bool {
    forall|i: int| 0 <= i < s.len() ==> is_blank_char(#[trigger] s[i])
}

/// Whether a line holds nothing but blank space.
fn line_is_blank(message: &str) -> (r: bool)
    ensures
        r == is_blank(message@),
{
    let n = message.unicode_len();
    let mut i: usize = 0;
    while i < n
        invariant
            n == message@.len(),
            i <= n,
            forall|j: int| 0 <= j < i ==> is_blank_char(#[trigger] message@[j]),
        decreases n - i,
    {
        let c = message.get_char(i);
        if !(c == ' ' || c == '\t' || c == '\n' || c == '\r') {
            proof {
                assert(!is_blank_char(message@[i as int]));
            }
            return false;
        }
        i += 1;
    }
    true
}

/// Tags one line of a container's log output with the container's name and
/// output stream; a blank line is dropped.
pub fn format_container_log_line(name: &str, stream: &str, message: &str) -> (r: Option<String>)
    ensures
        match r {
            None => is_blank(message@),
            Some(s) => !is_blank(message@)
                && s@ == "["@ + name@ + "]["@ + stream@ + "] "@ + message@,
        },
{
    if line_is_blank(message) {
        return None;
    }
    let tagged = String::from_str("[")
        .concat(name)
        .concat("][")
        .concat(stream)
        .concat("] ")
        .concat(message);
    Some(tagged)
}

/// One exposed port as the runtime reports it.
pub struct PortInfo {
    pub public_port: Option<u16>,
    pub typ: Option<String>,
}

/// One container as the runtime's list call reports it: every name given to
/// it, its status string, and its exposed ports.
pub struct ContainerSummaryInfo {
    pub names: Vec<String>,
    pub status: Option<String>,
    pub ports: Vec<PortInfo>,
}

/// A published container record.
pub struct DockerContainer {
    pub name: String,
    pub status: String,
    /// Not computed by this layer; always zero.
    pub cpu_usage: u64,
    /// Not computed by this layer; always zero.
    pub memory_usage: u64,
    pub ports: String,
}

/// Whether a reported port carries a public mapping.
pub open spec fn has_public_pred() -> spec_fn(PortInfo) -> bool {
    |p: PortInfo| p.public_port is Some
}

/// The `port/protocol` text of one publicly mapped port; a missing protocol
/// reads as the default one.
pub open spec fn port_item_spec(p: PortInfo, lang: Language) -> Seq<char> {
    match p.public_port {
        Some(pp) => dec_of(pp as nat) + "/"@ + (match p.typ {
            Some(ty) => ty@,
            None => translation_spec(lang, "tcp"@),
        }),
        None => Seq::empty(),
    }
}

/// The port-item function as a function value.
pub open spec fn port_item_fn(lang: Language) -> spec_fn(PortInfo) -> Seq<char> {
    |p: PortInfo| port_item_spec(p, lang)
}

/// Comma-joined text items.
pub open spec fn joined(items: Seq<Seq<char>>) -> Seq<char>
    decreases items.len(),
{
    if items.len() == 0 {
        Seq::empty()
    } else if items.len() == 1 {
        items[0]
    } else {
        joined(items.drop_last()) + ", "@ + items.last()
    }
}

/// The exposed-ports text of one container: its publicly mapped ports,
/// comma-joined; ports without a public mapping are omitted.
pub open spec fn ports_text_spec(ports: Seq<PortInfo>, lang: Language) -> Seq<char> {
    joined(ports.filter(has_public_pred()).map_values(port_item_fn(lang)))
}

/// Joins the publicly mapped ports of one container.
pub fn ports_join(ports: &Vec<PortInfo>, lang: Language) -> (r: String)
    ensures
        r@ == ports_text_spec(ports@, lang),
{
    let ghost pred = has_public_pred();
    let ghost f = port_item_fn(lang);
    let n = ports.len();
    let mut items: Vec<String> = Vec::new();
    let mut i: usize = 0;
    proof {
        assert(ports@.take(0) =~= Seq::<PortInfo>::empty());
        reveal(Seq::filter);
        assert(views_of(items@) =~= ports@.take(0).filter(pred).map_values(f));
    }
    while i < n
        invariant
            n == ports@.len(),
            i <= n,
            pred == has_public_pred(),
            f == port_item_fn(lang),
            views_of(items@) == ports@.take(i as int).filter(pred).map_values(f),
        decreases n - i,
    {
        let p = &ports[i];
        match &p.public_port {
            Some(pp) => {
                let mut item = u64_to_string(*pp as u64);
                item = item.concat("/");
                let item = match &p.typ {
                    Some(ty) => item.concat(ty.as_str()),
                    None => item.concat(t(lang, "tcp")),
                };
                let ghost tv = item@;
                let ghost prev = items@;
                proof {
                    assert(f(ports@[i as int]) == port_item_spec(ports@[i as int], lang));
                    assert(tv == f(ports@[i as int]));
                }
                items.push(item);
                proof {
                    assert(views_of(items@) =~= views_of(prev).push(tv));
                }
            },
            None => {},
        }
        proof {
            let t1 = ports@.take(i + 1);
            assert(t1.drop_last() =~= ports@.take(i as int));
            assert(t1.last() == ports@[i as int]);
            reveal(Seq::filter);
            if pred(ports@[i as int]) {
                assert(t1.filter(pred) == ports@.take(i as int).filter(pred).push(ports@[i as int]));
                assert(t1.filter(pred).map_values(f)
                    =~= ports@.take(i as int).filter(pred).map_values(f).push(f(ports@[i as int])));
            } else {
                assert(t1.filter(pred) == ports@.take(i as int).filter(pred));
            }
        }
        i += 1;
    }
    proof {
        assert(ports@.take(n as int) =~= ports@);
    }

    // Join the items with a comma separator.
    let ghost ivs = views_of(items@);
    let m = items.len();
    let mut out = String::new();
    let mut j: usize = 0;
    proof {
        assert(ivs.take(0) =~= Seq::<Seq<char>>::empty());
        assert(out@ =~= joined(ivs.take(0)));
    }
    while j < m
        invariant
            m == items@.len(),
            ivs == views_of(items@),
            j <= m,
            out@ == joined(ivs.take(j as int)),
        decreases m - j,
    {
        proof {
            assert(views_of(items@)[j as int] == items@[j as int]@);
        }
        if j == 0 {
            out = items[0].clone();
        } else {
            out.append(", ");
            out.append(items[j].as_str());
        }
        proof {
            let t1 = ivs.take(j + 1);
            assert(t1.drop_last() =~= ivs.take(j as int));
            assert(t1.last() == ivs[j as int]);
            if j == 0 {
                assert(t1.len() == 1);
                assert(t1[0] == ivs[0int]);
            }
            assert(out@ == joined(t1));
        }
        j += 1;
    }
    proof {
        assert(ivs.take(m as int) =~= ivs);
    }
    out
}

/// The display name of a container: its first reported name with leading
/// separators stripped, or the unknown placeholder when it has none.
pub open spec fn container_name_spec(names: Seq<Seq<char>>, lang: Language) -> Seq<char> {
    if names.len() > 0 {
        strip_slashes(names[0])
    } else {
        translation_spec(lang, "unknown"@)
    }
}

/// The view of one published record.
pub open spec fn record_view(c: DockerContainer) -> (Seq<char>, Seq<char>, u64, u64, Seq<char>) {
    (c.name@, c.status@, c.cpu_usage, c.memory_usage, c.ports@)
}

/// Views of a sequence of published records.
pub open spec fn record_views(cs: Seq<DockerContainer>) -> Seq<(Seq<char>, Seq<char>, u64, u64, Seq<char>)> {
    cs.map_values(|c: DockerContainer| record_view(c))
}

/// What one reported container publishes: name and status resolved, usage
/// percentages fixed at zero, ports joined.
pub open spec fn record_spec(c: ContainerSummaryInfo, lang: Language) -> (Seq<char>, Seq<char>, u64, u64, Seq<char>) {
    (
        container_name_spec(views_of(c.names@), lang),
        match c.status {
            Some(s) => s@,
            None => translation_spec(lang, "unknown"@),
        },
        0u64,
        0u64,
        ports_text_spec(c.ports@, lang),
    )
}

/// The record function as a function value.
pub open spec fn record_fn(lang: Language) -> spec_fn(ContainerSummaryInfo) -> (Seq<char>, Seq<char>, u64, u64, Seq<char>) {
    |c: ContainerSummaryInfo| record_spec(c, lang)
}

/// Builds the published record of one reported container.
fn make_record(c: &ContainerSummaryInfo, lang: Language) -> (r: DockerContainer)
    ensures
        record_view(r) == record_spec(*c, lang),
{
    let name = if c.names.len() > 0 {
        proof {
            assert(views_of(c.names@)[0] == c.names@[0]@);
        }
        strip_leading_slashes(c.names[0].as_str())
    } else {
        t(lang, "unknown").to_owned()
    };
    let status = match &c.status {
        Some(s) => s.clone(),
        None => t(lang, "unknown").to_owned(),
    };
    let ports = ports_join(&c.ports, lang);
    DockerContainer { name, status, cpu_usage: 0, memory_usage: 0, ports }
}

/// The outcome of one poll of the runtime's list-containers call.
pub enum PollOutcome {
    /// The call answered within the timeout.
    Success(Vec<ContainerSummaryInfo>),
    /// The runtime was reachable but the call failed; the message describes
    /// the failure.
    Error(String),
    /// The call did not answer within the timeout.
    Timeout,
    /// No connection to the runtime exists; polls short-circuit here.
    Unavailable,
}

/// Container bridge state: the published container list and the recorded
/// error, if any.
pub struct DockerData {
    containers: Vec<DockerContainer>,
    error: Option<String>,
}

impl DockerData {
    /// Views of the published records.
    pub closed spec fn containers_view(&self) -> Seq<(Seq<char>, Seq<char>, u64, u64, Seq<char>)> {
        record_views(self.containers@)
    }

    /// The recorded error text.
    pub closed spec fn error_view(&self) -> Option<Seq<char>> {
        match self.error {
            Some(e) => Some(e@),
            None => None,
        }
    }

    /// The published records.
    pub fn containers(&self) -> (r: &Vec<DockerContainer>)
        ensures
            record_views(r@) == self.containers_view(),
    {
        &self.containers
    }

    /// The recorded error text, cloned for display.
    pub fn error(&self) -> (r: Option<String>)
        ensures
            match r {
                Some(e) => self.error_view() == Some(e@),
                None => self.error_view() is None,
            },
    {
        match &self.error {
            Some(e) => Some(e.clone()),
            None => None,
        }
    }

    /// A fresh bridge: nothing published, no error recorded.
    pub fn new() -> (r: Self)
        ensures
            r.containers_view().len() == 0,
            r.error_view() is None,
    {
        DockerData { containers: Vec::new(), error: None }
    }

    /// Applies one poll outcome.  Success replaces the list and clears the
    /// error; an explicit error clears the list and records a message; a
    /// timeout leaves everything untouched unless the list was already
    /// empty, in which case it records a timeout message; an unavailable
    /// runtime clears the list and records the fixed unavailability message.
    pub fn update(&mut self, lang: Language, outcome: PollOutcome)
        ensures
            match outcome {
                PollOutcome::Success(list) => {
                    &&& final(self).containers_view() == list@.map_values(record_fn(lang))
                    &&& final(self).error_view() is None
                },
                PollOutcome::Error(msg) => {
                    &&& final(self).containers_view().len() == 0
                    &&& final(self).error_view() == Some(
                        translation_spec(lang, "failed_to_list_containers"@) + " "@ + msg@)
                },
                PollOutcome::Timeout => {
                    &&& final(self).containers_view() == old(self).containers_view()
                    &&& old(self).containers_view().len() > 0
                        ==> final(self).error_view() == old(self).error_view()
                    &&& old(self).containers_view().len() == 0
                        ==> final(self).error_view() == Some("Docker response timed out; check the Docker daemon"@)
                },
                PollOutcome::Unavailable => {
                    &&& final(self).containers_view().len() == 0
                    &&& final(self).error_view() == Some(translation_spec(lang, "docker_not_available"@))
                },
            },
    {
        match outcome {
            PollOutcome::Success(list) => {
                let ghost f = record_fn(lang);
                let n = list.len();
                let mut records: Vec<DockerContainer> = Vec::new();
                let mut i: usize = 0;
                proof {
                    assert(list@.take(0) =~= Seq::<ContainerSummaryInfo>::empty());
                    assert(record_views(records@) =~= list@.take(0).map_values(f));
                }
                while i < n
                    invariant
                        n == list@.len(),
                        i <= n,
                        f == record_fn(lang),
                        record_views(records@) == list@.take(i as int).map_values(f),
                    decreases n - i,
                {
                    let rec = make_record(&list[i], lang);
                    let ghost tv = record_view(rec);
                    let ghost prev = records@;
                    proof {
                        assert(f(list@[i as int]) == record_spec(list@[i as int], lang));
                        assert(tv == f(list@[i as int]));
                    }
                    records.push(rec);
                    proof {
                        assert(record_views(records@) =~= record_views(prev).push(tv));
                        let t1 = list@.take(i + 1);
                        assert(t1.drop_last() =~= list@.take(i as int));
                        assert(t1.last() == list@[i as int]);
                        assert(t1.map_values(f)
                            =~= list@.take(i as int).map_values(f).push(f(list@[i as int])));
                    }
                    i += 1;
                }
                proof {
                    assert(list@.take(n as int) =~= list@);
                }
                self.containers = records;
                self.error = None;
            },
            PollOutcome::Error(msg) => {
                self.containers = Vec::new();
                self.error = Some(t(lang, "failed_to_list_containers").to_owned().concat(" ").concat(msg.as_str()));
                proof {
                    assert(record_views(Seq::<DockerContainer>::empty()) =~= Seq::<(Seq<char>, Seq<char>, u64, u64, Seq<char>)>::empty());
                }
            },
            PollOutcome::Timeout => {
                if self.containers.is_empty() {
                    self.error = Some("Docker response timed out; check the Docker daemon".to_owned());
                }
            },
            PollOutcome::Unavailable => {
                self.containers = Vec::new();
                self.error = Some(t(lang, "docker_not_available").to_owned());
                proof {
                    assert(record_views(Seq::<DockerContainer>::empty()) =~= Seq::<(Seq<char>, Seq<char>, u64, u64, Seq<char>)>::empty());
                }
            },
        }
    }
}

} // verus!
