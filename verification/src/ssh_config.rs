//! The hosts of an OpenSSH client configuration.
use crate::number::{
    decimal, decimal_is_read_back, is_digit, parse_port, port_in, port_is_read_back, port_or,
};
use crate::text::{
    a_text_without_line_feeds_is_one_line, ascii_lowercase, chars_of, first_word, first_word_len,
    is_white, lemma_trimmed_end_drops, lemma_white_start_is_skipped, lines, lines_of,
    lines_of_joined_texts, lowercase, optional_text, same, string_of, texts,
    the_first_word_ends_at_white_space, to_lower, trim, trimmed, trimmed_end, trimmed_start,
    trimming_takes_the_white_space_at_the_ends, words, words_hold_no_white_space, words_of,
};
use vstd::prelude::*;
use vstd::utf8::is_ascii_chars;

verus! {

/// A host that an SSH client configuration names.
#[derive(Debug)]
pub struct SshHost {
    pub name: String,
    pub hostname: Option<String>,
    pub port: u16,
    pub user: Option<String>,
    pub identity_file: Option<String>,
}

#[verifier::ext_equal]
pub struct SshHostView {
    pub name: Seq<char>,
    pub hostname: Option<Seq<char>>,
    pub port: u16,
    pub user: Option<Seq<char>>,
    pub identity_file: Option<Seq<char>>,
}

impl View for SshHost {
    type V = SshHostView;

    open spec fn view(&self) -> SshHostView {
        SshHostView {
            name: self.name@,
            hostname: optional_text(self.hostname),
            port: self.port,
            user: optional_text(self.user),
            identity_file: optional_text(self.identity_file),
        }
    }
}

impl Clone for SshHost {
    fn clone(&self) -> (copy: Self)
        ensures
            copy@ == self@,
    {
        SshHost {
            name: self.name.clone(),
            hostname: self.hostname.clone(),
            port: self.port,
            user: self.user.clone(),
            identity_file: self.identity_file.clone(),
        }
    }
}

/// The views of a sequence of hosts.
pub open spec fn host_views(hosts: Seq<SshHost>) -> Seq<SshHostView> {
    hosts.map_values(|h: SshHost| h@)
}

/// Whether a text is made of white space alone.
pub open spec fn all_white(s: Seq<char>) -> bool {
    forall|i: int| 0 <= i < s.len() ==> is_white(#[trigger] s[i])
}

/// Whether a text holds white space.
pub open spec fn has_white(s: Seq<char>) -> bool {
    exists|i: int| 0 <= i < s.len() && is_white(#[trigger] s[i])
}

/// Whether a text holds at least one character, and no white space.
pub open spec fn is_word(s: Seq<char>) -> bool {
    s.len() > 0 && !has_white(s)
}

/// Whether a word ends where `rest` starts.
pub open spec fn ends_word(rest: Seq<char>) -> bool {
    rest.len() > 0 ==> is_white(rest[0])
}

// ── what a configuration says ───────────────────────────────────────────────
/// A line that sets something: a keyword, in lower case, and its value.
#[verifier::ext_equal]
pub struct Directive {
    pub key: Seq<char>,
    pub value: Seq<char>,
}

/// The directive of a line. A blank line, a comment and a keyword without a
/// value are none.
pub open spec fn directive_of(line: Seq<char>) -> Option<Directive> {
    let content = trimmed(line);
    let n = first_word_len(content) as int;
    if content.len() == 0 || content[0] == '#' || n == content.len() {
        None
    } else {
        Some(
            Directive {
                key: lowercase(content.take(n)),
                value: trimmed(content.skip(n + 1)),
            },
        )
    }
}

/// The directives of a sequence of lines, in their order.
pub open spec fn directives_of(lines: Seq<Seq<char>>) -> Seq<Directive>
    decreases lines.len(),
{
    if lines.len() == 0 {
        Seq::empty()
    } else {
        let directives = directives_of(lines.drop_last());
        match directive_of(lines.last()) {
            Some(directive) => directives.push(directive),
            None => directives,
        }
    }
}

/// A header and the directives up to the next header.
#[verifier::ext_equal]
pub struct Block {
    pub header: Directive,
    pub body: Seq<Directive>,
}

/// Whether a directive starts a block.
pub open spec fn is_header(directive: Directive) -> bool {
    directive.key == "host"@ || directive.key == "match"@
}

/// The blocks of a configuration. What stands before the first header belongs
/// to none.
pub open spec fn blocks_of(directives: Seq<Directive>) -> Seq<Block>
    decreases directives.len(),
{
    if directives.len() == 0 {
        Seq::empty()
    } else {
        let blocks = blocks_of(directives.drop_last());
        let directive = directives.last();
        if is_header(directive) {
            blocks.push(Block { header: directive, body: Seq::empty() })
        } else if blocks.len() == 0 {
            blocks
        } else {
            blocks.drop_last().push(
                Block { header: blocks.last().header, body: blocks.last().body.push(directive) },
            )
        }
    }
}

/// What the last directive with the given keyword sets.
pub open spec fn last_value(body: Seq<Directive>, key: Seq<char>) -> Option<Seq<char>>
    decreases body.len(),
{
    if body.len() == 0 {
        None
    } else if body.last().key == key {
        Some(body.last().value)
    } else {
        last_value(body.drop_last(), key)
    }
}

/// The host of the given name in a `Host` block. Where the block sets no host
/// name, the first name of its header is taken.
pub open spec fn host_in(block: Block, name: Seq<char>) -> SshHostView {
    SshHostView {
        name,
        hostname: Some(
            match last_value(block.body, "hostname"@) {
                Some(hostname) => hostname,
                None => words_of(block.header.value)[0],
            },
        ),
        port: match last_value(block.body, "port"@) {
            Some(port) => port_or(port, 22),
            None => 22,
        },
        user: last_value(block.body, "user"@),
        identity_file: last_value(block.body, "identityfile"@),
    }
}

/// Whether a name of a header names one host, and not all of them.
pub open spec fn names_a_host(name: Seq<char>) -> bool {
    name != "*"@
}

/// The hosts of a block. What a `Match` block sets depends on the connection, so
/// it has none.
pub open spec fn hosts_of_block(block: Block) -> Seq<SshHostView> {
    if block.header.key == "match"@ {
        Seq::empty()
    } else {
        words_of(block.header.value).filter(|name: Seq<char>| names_a_host(name)).map_values(
            |name: Seq<char>| host_in(block, name),
        )
    }
}

/// The hosts of a sequence of blocks.
pub open spec fn hosts_of_blocks(blocks: Seq<Block>) -> Seq<SshHostView>
    decreases blocks.len(),
{
    if blocks.len() == 0 {
        Seq::empty()
    } else {
        hosts_of_blocks(blocks.drop_last()) + hosts_of_block(blocks.last())
    }
}

/// The hosts of a configuration.
pub open spec fn hosts_of(text: Seq<char>) -> Seq<SshHostView> {
    hosts_of_blocks(blocks_of(directives_of(lines_of(text))))
}

// ── reading one ─────────────────────────────────────────────────────────────
struct ParsedDirective {
    key: String,
    value: String,
}

impl View for ParsedDirective {
    type V = Directive;

    closed spec fn view(&self) -> Directive {
        Directive { key: self.key@, value: self.value@ }
    }
}

/// The `Host` block that is being read.
struct OpenBlock {
    names: Vec<String>,
    hostname: Option<String>,
    port: u16,
    user: Option<String>,
    identity_file: Option<String>,
    block: Ghost<Block>,
}

impl OpenBlock {
    closed spec fn wf(self) -> bool {
        let block = self.block@;
        &&& block.header.key == "host"@
        &&& texts(self.names@) == words_of(block.header.value)
        &&& optional_text(self.hostname) == last_value(block.body, "hostname"@)
        &&& self.port == match last_value(block.body, "port"@) {
            Some(port) => port_or(port, 22),
            None => 22,
        }
        &&& optional_text(self.user) == last_value(block.body, "user"@)
        &&& optional_text(self.identity_file) == last_value(block.body, "identityfile"@)
    }
}

fn parse_directive(line: &str) -> (directive: Option<ParsedDirective>)
    ensures
        directive is Some <==> directive_of(line@) is Some,
        directive matches Some(d) ==> Some(d@) == directive_of(line@),
{
    let content = trim(line);
    let chars = chars_of(content.as_str());
    if chars.len() == 0 || chars[0] == '#' {
        return None;
    }
    let n = first_word(&chars);
    if n == chars.len() {
        return None;
    }
    let key = string_of(&chars, 0, n);
    let value = string_of(&chars, n + 1, chars.len());
    assert(key@ == content@.take(n as int));
    assert(value@ == content@.skip(n + 1));
    Some(ParsedDirective { key: to_lower(key.as_str()), value: trim(value.as_str()) })
}

fn open_block(header: ParsedDirective) -> (block: OpenBlock)
    requires
        header@.key == "host"@,
    ensures
        block.wf(),
        block.block@ == (Block { header: header@, body: Seq::empty() }),
{
    OpenBlock {
        names: words(header.value.as_str()),
        hostname: None,
        port: 22,
        user: None,
        identity_file: None,
        block: Ghost(Block { header: header@, body: Seq::empty() }),
    }
}

proof fn keywords_differ()
    ensures
        "host"@ != "match"@,
        "hostname"@ != "port"@,
        "hostname"@ != "user"@,
        "hostname"@ != "identityfile"@,
        "port"@ != "user"@,
        "port"@ != "identityfile"@,
        "user"@ != "identityfile"@,
{
    reveal_strlit("host");
    reveal_strlit("match");
    reveal_strlit("hostname");
    reveal_strlit("port");
    reveal_strlit("user");
    reveal_strlit("identityfile");
    assert("host"@[0] == 'h' && "match"@[0] == 'm');
    assert("hostname"@[0] == 'h' && "port"@[0] == 'p');
    assert("user"@[0] == 'u' && "identityfile"@[0] == 'i');
}

fn extend_block(block: &mut OpenBlock, directive: ParsedDirective)
    requires
        old(block).wf(),
    ensures
        final(block).wf(),
        final(block).block@ == (Block {
            header: old(block).block@.header,
            body: old(block).block@.body.push(directive@),
        }),
{
    let ghost body = block.block@.body;
    proof {
        keywords_differ();
        assert(body.push(directive@).drop_last() == body);
    }
    if same(directive.key.as_str(), "hostname") {
        block.hostname = Some(directive.value.clone());
    } else if same(directive.key.as_str(), "port") {
        block.port = match parse_port(directive.value.as_str()) {
            Some(port) => port,
            None => 22,
        };
    } else if same(directive.key.as_str(), "user") {
        block.user = Some(directive.value.clone());
    } else if same(directive.key.as_str(), "identityfile") {
        block.identity_file = Some(directive.value.clone());
    }
    block.block = Ghost(Block { header: block.block@.header, body: body.push(directive@) });
}

fn close_block(block: OpenBlock, hosts: &mut Vec<SshHost>)
    requires
        block.wf(),
    ensures
        host_views(final(hosts)@) == host_views(old(hosts)@) + hosts_of_block(block.block@),
{
    let names = &block.names;
    let ghost views = words_of(block.block@.header.value);
    let ghost pred = |name: Seq<char>| names_a_host(name);
    let ghost make = |name: Seq<char>| host_in(block.block@, name);
    proof {
        keywords_differ();
    }
    assert(views.take(0).filter(pred) == Seq::<Seq<char>>::empty()) by {
        reveal(Seq::filter);
    }
    assert(host_views(hosts@) == host_views(old(hosts)@) + views.take(0).filter(pred).map_values(
        make,
    ));
    for i in 0..names.len()
        invariant
            block.wf(),
            *names == block.names,
            views == words_of(block.block@.header.value),
            pred == (|name: Seq<char>| names_a_host(name)),
            make == (|name: Seq<char>| host_in(block.block@, name)),
            host_views(hosts@) == host_views(old(hosts)@) + views.take(i as int).filter(
                pred,
            ).map_values(make),
    {
        let ghost before = hosts@;
        assert(views[i as int] == texts(names@)[i as int]);
        assert(names@[i as int]@ == views[i as int]);
        proof {
            reveal(Seq::filter);
            assert(views.take(i + 1).drop_last() == views.take(i as int));
        }
        if !same(names[i].as_str(), "*") {
            let hostname = match &block.hostname {
                Some(hostname) => hostname.clone(),
                None => names[0].clone(),
            };
            assert(views[0] == texts(names@)[0]);
            hosts.push(
                SshHost {
                    name: names[i].clone(),
                    hostname: Some(hostname),
                    port: block.port,
                    user: block.user.clone(),
                    identity_file: block.identity_file.clone(),
                },
            );
            assert(hosts@.last()@ == make(views[i as int]));
            assert(host_views(hosts@) == host_views(before).push(make(views[i as int])));
            assert(views.take(i + 1).filter(pred).map_values(make) == views.take(i as int).filter(
                pred,
            ).map_values(make).push(make(views[i as int])));
        }
    }
    assert(views.take(views.len() as int) == views);
}

/// The hosts of an SSH client configuration, given its text.
pub fn parse_ssh_config(content: &str) -> (hosts: Vec<SshHost>)
    ensures
        host_views(hosts@) == hosts_of(content@),
{
    let all = lines(content);
    let ghost views = lines_of(content@);
    let mut hosts: Vec<SshHost> = Vec::new();
    let mut current: Option<OpenBlock> = None;
    proof {
        keywords_differ();
    }
    assert(host_views(hosts@) == Seq::<SshHostView>::empty());
    for i in 0..all.len()
        invariant
            texts(all@) == views,
            views == lines_of(content@),
            "host"@ != "match"@,
            ({
                let blocks = blocks_of(directives_of(views.take(i as int)));
                match current {
                    Some(open) => {
                        &&& open.wf()
                        &&& blocks.len() > 0
                        &&& blocks.last() == open.block@
                        &&& host_views(hosts@) == hosts_of_blocks(blocks.drop_last())
                    },
                    None => {
                        &&& blocks.len() == 0 || blocks.last().header.key == "match"@
                        &&& host_views(hosts@) == hosts_of_blocks(blocks)
                    },
                }
            }),
    {
        let ghost directives = directives_of(views.take(i as int));
        let ghost blocks = blocks_of(directives);
        let ghost next_blocks = blocks_of(directives_of(views.take(i + 1)));
        assert(views.take(i + 1).drop_last() == views.take(i as int));
        assert(all@[i as int]@ == texts(all@)[i as int]);
        if let Some(directive) = parse_directive(all[i].as_str()) {
            assert(directives.push(directive@).drop_last() == directives);
            let is_host = same(directive.key.as_str(), "host");
            let is_match = same(directive.key.as_str(), "match");
            if is_host || is_match {
                assert(next_blocks.drop_last() == blocks);
                if let Some(open) = current {
                    close_block(open, &mut hosts);
                }
                assert(host_views(hosts@) == hosts_of_blocks(blocks));
                current = if is_host {
                    Some(open_block(directive))
                } else {
                    None
                };
                assert(is_match ==> hosts_of_blocks(next_blocks) == hosts_of_blocks(blocks));
            } else {
                if let Some(open) = current {
                    let mut open = open;
                    extend_block(&mut open, directive);
                    current = Some(open);
                    assert(next_blocks.drop_last() == blocks.drop_last());
                } else {
                    current = None;
                    assert(blocks.len() > 0 ==> next_blocks.drop_last() == blocks.drop_last());
                    assert(hosts_of_blocks(next_blocks) == hosts_of_blocks(blocks));
                }
            }
        }
    }
    assert(views.take(views.len() as int) == views);
    if let Some(open) = current {
        close_block(open, &mut hosts);
    }
    hosts
}

// ── what holds of every configuration ───────────────────────────────────────
proof fn lemma_lines_of_joined(a: Seq<char>, b: Seq<char>)
    ensures
        lines_of(a.push('\n') + b) == lines_of(a) + lines_of(b),
{
    lines_of_joined_texts(a, b);
}

proof fn lemma_one_line(s: Seq<char>)
    requires
        !s.contains('\n'),
    ensures
        lines_of(s) == seq![s],
{
    a_text_without_line_feeds_is_one_line(s);
}

proof fn lemma_directives_of_joined(a: Seq<Seq<char>>, b: Seq<Seq<char>>)
    ensures
        directives_of(a + b) == directives_of(a) + directives_of(b),
    decreases b.len(),
{
    if b.len() == 0 {
        assert(a + b == a);
    } else {
        lemma_directives_of_joined(a, b.drop_last());
        assert((a + b).drop_last() == a + b.drop_last());
    }
}

proof fn lemma_blocks_of_joined(a: Seq<Directive>, b: Seq<Directive>)
    requires
        b.len() > 0,
        is_header(b[0]),
    ensures
        blocks_of(a + b) == blocks_of(a) + blocks_of(b),
        blocks_of(b).len() > 0,
    decreases b.len(),
{
    assert((a + b).drop_last() == a + b.drop_last());
    if b.len() == 1 {
        assert(a + b.drop_last() == a);
        assert(blocks_of(b.drop_last()) == Seq::<Block>::empty());
    } else {
        lemma_blocks_of_joined(a, b.drop_last());
    }
}

proof fn lemma_hosts_of_joined(a: Seq<Block>, b: Seq<Block>)
    ensures
        hosts_of_blocks(a + b) == hosts_of_blocks(a) + hosts_of_blocks(b),
    decreases b.len(),
{
    if b.len() == 0 {
        assert(a + b == a);
    } else {
        lemma_hosts_of_joined(a, b.drop_last());
        assert((a + b).drop_last() == a + b.drop_last());
    }
}

/// A line that is blank, a comment, or a keyword without a value may stand
/// anywhere: the hosts are those of the text without it.
pub proof fn line_without_directive_changes_nothing(
    before: Seq<char>,
    line: Seq<char>,
    after: Seq<char>,
)
    requires
        !line.contains('\n'),
        directive_of(line) is None,
    ensures
        hosts_of(before.push('\n') + (line.push('\n') + after)) == hosts_of(
            before.push('\n') + after,
        ),
{
    lemma_lines_of_joined(before, line.push('\n') + after);
    lemma_lines_of_joined(line, after);
    lemma_lines_of_joined(before, after);
    lemma_one_line(line);
    lemma_directives_of_joined(lines_of(before), lines_of(line) + lines_of(after));
    lemma_directives_of_joined(lines_of(line), lines_of(after));
    lemma_directives_of_joined(lines_of(before), lines_of(after));
    assert(seq![line].drop_last() == Seq::<Seq<char>>::empty());
    reveal_with_fuel(directives_of, 2);
    assert(directives_of(seq![line]) == Seq::<Directive>::empty());
    assert(Seq::<Directive>::empty() + directives_of(lines_of(after)) == directives_of(
        lines_of(after),
    ));
}

/// A text that starts with a header can be appended to any other: what either
/// of them sets does not reach the hosts of the other.
pub proof fn blocks_are_independent(first: Seq<char>, second: Seq<char>)
    requires
        directives_of(lines_of(second)).len() > 0,
        is_header(directives_of(lines_of(second))[0]),
    ensures
        hosts_of(first.push('\n') + second) == hosts_of(first) + hosts_of(second),
{
    lemma_lines_of_joined(first, second);
    lemma_directives_of_joined(lines_of(first), lines_of(second));
    lemma_blocks_of_joined(directives_of(lines_of(first)), directives_of(lines_of(second)));
    lemma_hosts_of_joined(
        blocks_of(directives_of(lines_of(first))),
        blocks_of(directives_of(lines_of(second))),
    );
}

proof fn lemma_single_block(directives: Seq<Directive>)
    requires
        directives.len() > 0,
        is_header(directives[0]),
        forall|i: int| 0 < i < directives.len() ==> !is_header(#[trigger] directives[i]),
    ensures
        blocks_of(directives).len() == 1,
        blocks_of(directives)[0].header == directives[0],
    decreases directives.len(),
{
    if directives.len() == 1 {
        assert(blocks_of(directives.drop_last()) == Seq::<Block>::empty());
    } else {
        lemma_single_block(directives.drop_last());
    }
}

/// A `Match` block adds no host, whatever it sets.
pub proof fn match_block_adds_no_host(before: Seq<char>, block: Seq<char>)
    requires
        ({
            let directives = directives_of(lines_of(block));
            &&& directives.len() > 0
            &&& directives[0].key == "match"@
            &&& forall|i: int| 0 < i < directives.len() ==> !is_header(#[trigger] directives[i])
        }),
    ensures
        hosts_of(before.push('\n') + block) == hosts_of(before),
{
    let directives = directives_of(lines_of(block));
    blocks_are_independent(before, block);
    lemma_single_block(directives);
    assert(blocks_of(directives).drop_last() == Seq::<Block>::empty());
    reveal_with_fuel(hosts_of_blocks, 2);
    assert(hosts_of(block) == Seq::<SshHostView>::empty());
}

proof fn lemma_words(s: Seq<char>)
    ensures
        forall|i: int| 0 <= i < words_of(s).len() ==> is_word(#[trigger] words_of(s)[i]),
        s.len() > 0 && !is_white(s.last()) ==> words_of(s).len() > 0,
{
    words_hold_no_white_space(s);
}

proof fn lemma_hosts_are_named(blocks: Seq<Block>)
    ensures
        forall|i: int|
            0 <= i < hosts_of_blocks(blocks).len() ==> {
                let host = #[trigger] hosts_of_blocks(blocks)[i];
                host.name != "*"@ && is_word(host.name) && host.hostname is Some
            },
    decreases blocks.len(),
{
    if blocks.len() > 0 {
        lemma_hosts_are_named(blocks.drop_last());
        let earlier = hosts_of_blocks(blocks.drop_last());
        let block = blocks.last();
        let names = words_of(block.header.value);
        let pred = |name: Seq<char>| names_a_host(name);
        assert forall|i: int| 0 <= i < hosts_of_blocks(blocks).len() implies {
            let host = #[trigger] hosts_of_blocks(blocks)[i];
            host.name != "*"@ && is_word(host.name) && host.hostname is Some
        } by {
            if i < earlier.len() {
                assert(hosts_of_blocks(blocks)[i] == earlier[i]);
            } else {
                let name = names.filter(pred)[i - earlier.len()];
                names.lemma_filter_pred(pred, i - earlier.len());
                assert(names.filter(pred).contains(name));
                names.lemma_filter_contains_rev(pred, name);
                lemma_words(block.header.value);
            }
        }
    }
}

/// No host stands for all of them. Every host has a name, without white space in
/// it, and a host name.
pub proof fn every_host_can_be_reached(text: Seq<char>, i: int)
    requires
        0 <= i < hosts_of(text).len(),
    ensures
        hosts_of(text)[i].name != "*"@,
        is_word(hosts_of(text)[i].name),
        hosts_of(text)[i].hostname is Some,
{
    lemma_hosts_are_named(blocks_of(directives_of(lines_of(text))));
}

proof fn lemma_first_word_of(key: Seq<char>, rest: Seq<char>)
    requires
        forall|i: int| 0 <= i < key.len() ==> !is_white(#[trigger] key[i]),
        rest.len() > 0,
        is_white(rest[0]),
    ensures
        first_word_len(key + rest) == key.len(),
    decreases key.len(),
{
    if key.len() == 0 {
        assert(key + rest == rest);
    } else {
        assert(!is_white(key[0]));
        assert forall|i: int| 0 <= i < key.skip(1).len() implies !is_white(
            #[trigger] key.skip(1)[i],
        ) by {
            assert(key.skip(1)[i] == key[i + 1]);
        }
        lemma_first_word_of(key.skip(1), rest);
        assert((key + rest).skip(1) == key.skip(1) + rest);
    }
}

/// A line made of a keyword, a blank and a value sets that value, under the
/// keyword in lower case.
pub proof fn directive_is_read_back(key: Seq<char>, blank: char, value: Seq<char>)
    requires
        key.len() > 0,
        key[0] != '#',
        forall|i: int| 0 <= i < key.len() ==> !is_white(#[trigger] key[i]),
        is_white(blank),
        value.len() > 0,
        trimmed(value) == value,
    ensures
        directive_of(key.push(blank) + value) == Some(Directive { key: lowercase(key), value }),
{
    let line = key.push(blank) + value;
    assert(!is_white(key[0]));
    assert(line[0] == key[0]);
    assert(trimmed_start(line) == line);
    lemma_trimmed_ends_in_ink(value);
    assert(line.last() == value.last());
    assert(trimmed(line) == line);
    assert(line == key + (seq![blank] + value));
    lemma_first_word_of(key, seq![blank] + value);
    assert(line.take(key.len() as int) == key);
    assert(line.skip(key.len() as int + 1) == value);
}

proof fn lemma_trimmed_start_shrinks(s: Seq<char>)
    ensures
        trimmed_start(s).len() <= s.len(),
        trimmed_start(s).len() == s.len() ==> trimmed_start(s) == s,
    decreases s.len(),
{
    if s.len() > 0 && is_white(s[0]) {
        lemma_trimmed_start_shrinks(s.skip(1));
    }
}

proof fn lemma_trimmed_end_shrinks(s: Seq<char>)
    ensures
        trimmed_end(s).len() <= s.len(),
        s.len() > 0 && is_white(s.last()) ==> trimmed_end(s).len() < s.len(),
    decreases s.len(),
{
    if s.len() > 0 && is_white(s.last()) {
        lemma_trimmed_end_shrinks(s.drop_last());
    }
}

proof fn lemma_trimmed_ends_in_ink(s: Seq<char>)
    requires
        s.len() > 0,
        trimmed(s) == s,
    ensures
        !is_white(s.last()),
{
    lemma_trimmed_start_shrinks(s);
    lemma_trimmed_end_shrinks(trimmed_start(s));
}

// ── what a configuration looks like ─────────────────────────────────────────
/// Whether two keywords are the same, or differ in the case of ASCII letters
/// only.
pub open spec fn same_keyword(key: Seq<char>, other: Seq<char>) -> bool {
    ||| key == other
    ||| is_ascii_chars(key) && is_ascii_chars(other) && lowercase(key) == lowercase(other)
}

proof fn lemma_trimmed_start_skips(indent: Seq<char>, line: Seq<char>)
    requires
        all_white(indent),
    ensures
        trimmed_start(indent + line) == trimmed_start(line),
{
    lemma_white_start_is_skipped(indent, line);
}

/// How far a line is indented does not matter.
pub proof fn indentation_does_not_matter(indent: Seq<char>, line: Seq<char>)
    requires
        all_white(indent),
    ensures
        directive_of(indent + line) == directive_of(line),
{
    lemma_trimmed_start_skips(indent, line);
}

proof fn lemma_trimmed_end_behind(key: Seq<char>, rest: Seq<char>)
    requires
        key.len() > 0,
        !is_white(key.last()),
    ensures
        trimmed_end(key + rest) == key + trimmed_end(rest),
        trimmed_end(rest).len() > 0 ==> trimmed_end(rest)[0] == rest[0] && rest.len() > 0,
    decreases rest.len(),
{
    if rest.len() == 0 {
        assert(key + rest == key);
        assert(key + trimmed_end(rest) == key);
    } else {
        assert((key + rest).last() == rest.last());
        if is_white(rest.last()) {
            lemma_trimmed_end_behind(key, rest.drop_last());
            assert((key + rest).drop_last() == key + rest.drop_last());
        }
    }
}

/// The directive of a line that starts with a keyword.
proof fn lemma_directive_of_keyword(key: Seq<char>, rest: Seq<char>)
    requires
        is_word(key),
        ends_word(rest),
    ensures
        directive_of(key + rest) == if key[0] == '#' || trimmed_end(rest).len() == 0 {
            None
        } else {
            Some(Directive { key: lowercase(key), value: trimmed(trimmed_end(rest).skip(1)) })
        },
{
    let line = key + rest;
    let tail = trimmed_end(rest);
    assert(!is_white(key[0]));
    assert(!is_white(key.last()));
    assert(line[0] == key[0]);
    assert(trimmed_start(line) == line);
    lemma_trimmed_end_behind(key, rest);
    let content = key + tail;
    assert(trimmed(line) == content);
    assert(content[0] == key[0]);
    if tail.len() == 0 {
        assert(content == key);
        lemma_one_word(key);
    } else {
        lemma_first_word_of(key, tail);
        assert(content.take(key.len() as int) == key);
        assert(content.skip(key.len() as int + 1) == tail.skip(1));
    }
}

proof fn lemma_one_word(key: Seq<char>)
    requires
        !has_white(key),
    ensures
        first_word_len(key) == key.len(),
    decreases key.len(),
{
    if key.len() > 0 {
        assert(!is_white(key[0]));
        assert forall|i: int| 0 <= i < key.skip(1).len() implies !is_white(
            #[trigger] key.skip(1)[i],
        ) by {
            assert(key.skip(1)[i] == key[i + 1]);
        }
        lemma_one_word(key.skip(1));
    }
}

/// The case of the ASCII letters of a keyword does not matter.
pub proof fn case_of_keywords_does_not_matter(key: Seq<char>, other: Seq<char>, rest: Seq<char>)
    requires
        !has_white(key),
        same_keyword(key, other),
        ends_word(rest),
    ensures
        directive_of(key + rest) == directive_of(other + rest),
{
    if key != other {
        let lower = lowercase(key);
        assert(lower.len() == key.len() && lower.len() == other.len());
        if key.len() == 0 {
            assert(key == other);
        }
        assert forall|i: int| 0 <= i < other.len() implies !is_white(#[trigger] other[i]) by {
            assert(lower[i] == ascii_lowercase(key[i]));
            assert(lower[i] == ascii_lowercase(other[i]));
            assert(!is_white(key[i]));
        }
        assert(lower[0] == ascii_lowercase(key[0]));
        assert(lower[0] == ascii_lowercase(other[0]));
        lemma_directive_of_keyword(key, rest);
        lemma_directive_of_keyword(other, rest);
    }
}

/// Whether a line is blank or a comment.
pub open spec fn is_remark(line: Seq<char>) -> bool {
    let content = trimmed(line);
    content.len() == 0 || content[0] == '#'
}

/// Whether two lines differ in their indentation, and in the case of the ASCII
/// letters of their keyword, only.
pub open spec fn same_line(line: Seq<char>, other: Seq<char>) -> bool {
    exists|
        indent: Seq<char>,
        key: Seq<char>,
        other_indent: Seq<char>,
        other_key: Seq<char>,
        rest: Seq<char>,
    |
        {
            &&& all_white(indent)
            &&& all_white(other_indent)
            &&& !has_white(key)
            &&& same_keyword(key, other_key)
            &&& ends_word(rest)
            &&& line == #[trigger] laid_out(indent, key, rest)
            &&& other == #[trigger] laid_out(other_indent, other_key, rest)
        }
}

/// A line with its indentation, its keyword, and what follows it.
pub open spec fn laid_out(indent: Seq<char>, key: Seq<char>, rest: Seq<char>) -> Seq<char> {
    indent + (key + rest)
}

/// Whether lines differ from others in blank lines and comments, in the
/// indentation, and in the letter case of keywords only.
pub open spec fn restyled(lines: Seq<Seq<char>>, others: Seq<Seq<char>>) -> bool
    decreases lines.len() + others.len(),
{
    ||| lines.len() == 0 && others.len() == 0
    ||| others.len() > 0 && is_remark(others.last()) && restyled(lines, others.drop_last())
    ||| lines.len() > 0 && is_remark(lines.last()) && restyled(lines.drop_last(), others)
    ||| lines.len() > 0 && others.len() > 0 && same_line(lines.last(), others.last()) && restyled(
        lines.drop_last(),
        others.drop_last(),
    )
}

proof fn lemma_indent_of(line: Seq<char>) -> (indent: Seq<char>)
    ensures
        all_white(indent),
        line == indent + trimmed_start(line),
    decreases line.len(),
{
    if line.len() > 0 && is_white(line[0]) {
        let indent = lemma_indent_of(line.skip(1));
        let whole = seq![line[0]] + indent;
        assert(line == seq![line[0]] + line.skip(1));
        assert(whole + trimmed_start(line) == seq![line[0]] + (indent + trimmed_start(line)));
        whole
    } else {
        Seq::empty()
    }
}

proof fn lemma_first_word(s: Seq<char>)
    ensures
        first_word_len(s) <= s.len(),
        !has_white(s.take(first_word_len(s) as int)),
        ends_word(s.skip(first_word_len(s) as int)),
{
    the_first_word_ends_at_white_space(s);
}

/// Every line may be indented in any way.
pub proof fn a_line_may_be_indented_in_any_way(line: Seq<char>, indent: Seq<char>)
    requires
        all_white(indent),
    ensures
        same_line(line, indent + trimmed_start(line)),
        same_line(line, line),
{
    let own = lemma_indent_of(line);
    let content = trimmed_start(line);
    lemma_first_word(content);
    let n = first_word_len(content) as int;
    let key = content.take(n);
    let rest = content.skip(n);
    assert(content == key + rest);
    assert(line == laid_out(own, key, rest));
    assert(indent + content == laid_out(indent, key, rest));
}

proof fn lemma_same_line(line: Seq<char>, other: Seq<char>)
    requires
        same_line(line, other),
    ensures
        directive_of(line) == directive_of(other),
{
    let (indent, key, other_indent, other_key, rest) = choose|
        indent: Seq<char>,
        key: Seq<char>,
        other_indent: Seq<char>,
        other_key: Seq<char>,
        rest: Seq<char>,
    |
        {
            &&& all_white(indent)
            &&& all_white(other_indent)
            &&& !has_white(key)
            &&& same_keyword(key, other_key)
            &&& ends_word(rest)
            &&& line == #[trigger] laid_out(indent, key, rest)
            &&& other == #[trigger] laid_out(other_indent, other_key, rest)
        };
    indentation_does_not_matter(indent, key + rest);
    indentation_does_not_matter(other_indent, other_key + rest);
    case_of_keywords_does_not_matter(key, other_key, rest);
}

proof fn lemma_restyled(lines: Seq<Seq<char>>, others: Seq<Seq<char>>)
    requires
        restyled(lines, others),
    ensures
        directives_of(lines) == directives_of(others),
    decreases lines.len() + others.len(),
{
    if lines.len() == 0 && others.len() == 0 {
        assert(lines == others);
    } else if others.len() > 0 && is_remark(others.last()) && restyled(lines, others.drop_last()) {
        lemma_restyled(lines, others.drop_last());
    } else if lines.len() > 0 && is_remark(lines.last()) && restyled(lines.drop_last(), others) {
        lemma_restyled(lines.drop_last(), others);
    } else {
        lemma_same_line(lines.last(), others.last());
        lemma_restyled(lines.drop_last(), others.drop_last());
    }
}

/// The hosts of a configuration do not depend on what it looks like: on blank
/// lines and comments, on the indentation, and on the letter case of keywords.
pub proof fn the_layout_does_not_matter(text: Seq<char>, other: Seq<char>)
    requires
        restyled(lines_of(text), lines_of(other)),
    ensures
        hosts_of(text) == hosts_of(other),
{
    lemma_restyled(lines_of(text), lines_of(other));
}

// ── what a configuration sets ───────────────────────────────────────────────
/// Whether the directive at `k` sets the given keyword, and none behind it does.
pub open spec fn is_last_setting(body: Seq<Directive>, key: Seq<char>, k: int) -> bool {
    &&& 0 <= k < body.len()
    &&& body[k].key == key
    &&& forall|j: int| k < j < body.len() ==> (#[trigger] body[j]).key != key
}

/// Whether no directive sets the given keyword.
pub open spec fn is_not_set(body: Seq<Directive>, key: Seq<char>) -> bool {
    forall|j: int| 0 <= j < body.len() ==> (#[trigger] body[j]).key != key
}

/// Of several directives with the same keyword the last one counts.
pub proof fn the_last_setting_counts(body: Seq<Directive>, key: Seq<char>, k: int)
    ensures
        is_last_setting(body, key, k) ==> last_value(body, key) == Some(body[k].value),
        is_not_set(body, key) ==> last_value(body, key) is None,
    decreases body.len(),
{
    if body.len() > 0 {
        let rest = body.drop_last();
        assert(forall|j: int| 0 <= j < rest.len() ==> rest[j] == body[j]);
        assert(body.last() == body[body.len() - 1]);
        the_last_setting_counts(rest, key, k);
    }
}

/// What a block sets holds for every host of it, and for all of them alike: the
/// host name, or else the first name of the header; the port, or else 22; the
/// user and the key, if they are set.
pub proof fn a_block_sets_for_all_its_hosts(block: Block, i: int, k: int)
    requires
        block.header.key == "host"@,
        0 <= i < hosts_of_block(block).len(),
    ensures
        ({
            let host = hosts_of_block(block)[i];
            let body = block.body;
            &&& is_last_setting(body, "hostname"@, k) ==> host.hostname == Some(body[k].value)
            &&& is_not_set(body, "hostname"@) ==> host.hostname == Some(
                words_of(block.header.value)[0],
            )
            &&& is_last_setting(body, "port"@, k) ==> (port_in(body[k].value) matches Some(port)
                ==> host.port == port)
            &&& is_last_setting(body, "port"@, k) && port_in(body[k].value) is None ==> host.port
                == 22
            &&& is_not_set(body, "port"@) ==> host.port == 22
            &&& is_last_setting(body, "user"@, k) ==> host.user == Some(body[k].value)
            &&& is_not_set(body, "user"@) ==> host.user is None
            &&& is_last_setting(body, "identityfile"@, k) ==> host.identity_file == Some(
                body[k].value,
            )
            &&& is_not_set(body, "identityfile"@) ==> host.identity_file is None
        }),
{
    keywords_differ();
    the_last_setting_counts(block.body, "hostname"@, k);
    the_last_setting_counts(block.body, "port"@, k);
    the_last_setting_counts(block.body, "user"@, k);
    the_last_setting_counts(block.body, "identityfile"@, k);
}

/// A port that is set once, in decimal notation, is the port of every host of the
/// block.
pub proof fn a_port_reaches_every_host(block: Block, i: int, k: int, port: u16)
    requires
        block.header.key == "host"@,
        0 <= i < hosts_of_block(block).len(),
        is_last_setting(block.body, "port"@, k),
        block.body[k].value == decimal(port as nat),
    ensures
        hosts_of_block(block)[i].port == port,
{
    port_is_read_back(port);
    a_block_sets_for_all_its_hosts(block, i, k);
}

/// The hosts of a block differ in their names only.
pub proof fn hosts_of_a_block_agree(block: Block, i: int, j: int)
    requires
        0 <= i < hosts_of_block(block).len(),
        0 <= j < hosts_of_block(block).len(),
    ensures
        hosts_of_block(block)[i] == (SshHostView {
            name: hosts_of_block(block)[i].name,
            ..hosts_of_block(block)[j]
        }),
{
}

/// The names of hosts.
pub open spec fn names_of(hosts: Seq<SshHostView>) -> Seq<Seq<char>> {
    hosts.map_values(|h: SshHostView| h.name)
}

/// Every name in the header of a block is a host, in the order of the names, but
/// for the one that stands for all hosts.
pub proof fn every_name_is_a_host(block: Block)
    requires
        block.header.key == "host"@,
    ensures
        names_of(hosts_of_block(block)) == words_of(block.header.value).filter(
            |name: Seq<char>| name != "*"@,
        ),
{
    keywords_differ();
    let names = words_of(block.header.value);
    let pred = |name: Seq<char>| names_a_host(name);
    let other = |name: Seq<char>| name != "*"@;
    lemma_filters_agree(names, pred, other);
    assert(names_of(hosts_of_block(block)) == names.filter(pred));
}

proof fn lemma_filters_agree(
    s: Seq<Seq<char>>,
    pred: spec_fn(Seq<char>) -> bool,
    other: spec_fn(Seq<char>) -> bool,
)
    requires
        forall|x: Seq<char>| #[trigger] pred(x) == other(x),
    ensures
        s.filter(pred) == s.filter(other),
    decreases s.len(),
{
    reveal(Seq::filter);
    if s.len() > 0 {
        lemma_filters_agree(s.drop_last(), pred, other);
        assert(pred(s.last()) == other(s.last()));
    }
}

/// A text with one header, which comes first, has the hosts of that block. A text
/// without a header has none, whatever it sets.
pub proof fn a_header_opens_a_block(text: Seq<char>)
    ensures
        ({
            let directives = directives_of(lines_of(text));
            &&& directives.len() > 0 && (directives[0].key == "host"@ || directives[0].key
                == "match"@) && (forall|i: int|
                0 < i < directives.len() ==> (#[trigger] directives[i]).key != "host"@
                    && directives[i].key != "match"@) ==> hosts_of(text) == hosts_of_block(
                Block { header: directives[0], body: directives.skip(1) },
            )
            &&& (forall|i: int|
                0 <= i < directives.len() ==> (#[trigger] directives[i]).key != "host"@
                    && directives[i].key != "match"@) ==> hosts_of(text).len() == 0
        }),
{
    let directives = directives_of(lines_of(text));
    if directives.len() > 0 && is_header(directives[0]) && (forall|i: int|
        0 < i < directives.len() ==> !is_header(#[trigger] directives[i])) {
        lemma_block_body(directives);
        reveal_with_fuel(hosts_of_blocks, 2);
        assert(blocks_of(directives).drop_last() == Seq::<Block>::empty());
        assert(hosts_of(text) == hosts_of_block(blocks_of(directives)[0]));
    }
    if forall|i: int| 0 <= i < directives.len() ==> !is_header(#[trigger] directives[i]) {
        lemma_no_block(directives);
    }
}

proof fn lemma_block_body(directives: Seq<Directive>)
    requires
        directives.len() > 0,
        is_header(directives[0]),
        forall|i: int| 0 < i < directives.len() ==> !is_header(#[trigger] directives[i]),
    ensures
        blocks_of(directives) == seq![
            Block { header: directives[0], body: directives.skip(1) },
        ],
    decreases directives.len(),
{
    if directives.len() == 1 {
        assert(blocks_of(directives.drop_last()) == Seq::<Block>::empty());
        assert(directives.skip(1) == Seq::<Directive>::empty());
    } else {
        let rest = directives.drop_last();
        lemma_block_body(rest);
        assert(rest.skip(1).push(directives.last()) == directives.skip(1));
    }
}

proof fn lemma_no_block(directives: Seq<Directive>)
    requires
        forall|i: int| 0 <= i < directives.len() ==> !is_header(#[trigger] directives[i]),
    ensures
        blocks_of(directives).len() == 0,
    decreases directives.len(),
{
    if directives.len() > 0 {
        lemma_no_block(directives.drop_last());
    }
}

/// Blank lines, comments, and keywords without a value set nothing.
pub proof fn what_sets_nothing(line: Seq<char>)
    ensures
        all_white(line) ==> directive_of(line) is None,
        trimmed(line).len() > 0 && trimmed(line)[0] == '#' ==> directive_of(line) is None,
        is_word(line) ==> directive_of(line) is None,
{
    if all_white(line) {
        assert(line + Seq::<char>::empty() == line);
        indentation_does_not_matter(line, Seq::empty());
    }
    if is_word(line) {
        assert(line + Seq::<char>::empty() == line);
        lemma_directive_of_keyword(line, Seq::empty());
    }
}

/// Whether a text is a value that a line can set: not empty, on one line, and
/// without white space at its ends.
pub open spec fn is_value(s: Seq<char>) -> bool {
    s.len() > 0 && !s.contains('\n') && trimmed(s) == s
}

/// A line that sets `key` to `value`.
pub open spec fn setting(key: Seq<char>, value: Seq<char>) -> Seq<char> {
    key.push(' ') + value
}

proof fn lemma_setting(key: Seq<char>, lower: Seq<char>, value: Seq<char>)
    requires
        is_word(key),
        is_ascii_chars(key),
        key[0] != '#',
        lower == lowercase(key),
        is_value(value),
    ensures
        lines_of(setting(key, value)) == seq![setting(key, value)],
        directive_of(setting(key, value)) == Some(Directive { key: lower, value }),
{
    directive_is_read_back(key, ' ', value);
    let line = setting(key, value);
    if line.contains('\n') {
        let k = line.index_of('\n');
        if k > key.len() {
            assert(value[k - key.len() - 1] == '\n');
        } else if k < key.len() {
            assert(is_white(key[k]));
        }
    }
    lemma_one_line(line);
}

proof fn lemma_keywords()
    ensures
        is_word("Host"@) && is_ascii_chars("Host"@) && "Host"@[0] != '#' && lowercase("Host"@)
            == "host"@,
        is_word("HostName"@) && is_ascii_chars("HostName"@) && "HostName"@[0] != '#' && lowercase(
            "HostName"@,
        ) == "hostname"@,
        is_word("Port"@) && is_ascii_chars("Port"@) && "Port"@[0] != '#' && lowercase("Port"@)
            == "port"@,
        is_word("User"@) && is_ascii_chars("User"@) && "User"@[0] != '#' && lowercase("User"@)
            == "user"@,
        is_word("IdentityFile"@) && is_ascii_chars("IdentityFile"@) && "IdentityFile"@[0] != '#'
            && lowercase("IdentityFile"@) == "identityfile"@,
{
    reveal_strlit("Host");
    reveal_strlit("host");
    reveal_strlit("HostName");
    reveal_strlit("hostname");
    reveal_strlit("Port");
    reveal_strlit("port");
    reveal_strlit("User");
    reveal_strlit("user");
    reveal_strlit("IdentityFile");
    reveal_strlit("identityfile");
    assert(lowercase("Host"@) == "host"@);
    assert(lowercase("HostName"@) == "hostname"@);
    assert(lowercase("Port"@) == "port"@);
    assert(lowercase("User"@) == "user"@);
    assert(lowercase("IdentityFile"@) == "identityfile"@);
}

proof fn lemma_decimal_is_a_value(n: nat)
    ensures
        is_value(decimal(n)),
{
    let s = decimal(n);
    decimal_is_read_back(n);
    assert(is_digit(s[0]) && is_digit(s[s.len() - 1]));
    if s.contains('\n') {
        assert(is_digit(s[s.index_of('\n')]));
    }
    assert(s.last() == s[s.len() - 1]);
    assert(trimmed_start(s) == s);
    assert(trimmed(s) == s);
}

/// A block that names hosts and sets everything that is read gives each of the
/// hosts what it sets.
pub proof fn a_block_is_read_back(
    names: Seq<char>,
    hostname: Seq<char>,
    port: u16,
    user: Seq<char>,
    key: Seq<char>,
)
    requires
        is_value(names),
        is_value(hostname),
        is_value(user),
        is_value(key),
    ensures
        ({
            let text = setting("Host"@, names).push('\n') + (setting("HostName"@, hostname).push('\n')
                + (setting("Port"@, decimal(port as nat)).push('\n') + (setting("User"@, user).push(
                '\n',
            ) + setting("IdentityFile"@, key))));
            let hosts = hosts_of(text);
            &&& names_of(hosts) == words_of(names).filter(|name: Seq<char>| name != "*"@)
            &&& forall|i: int|
                0 <= i < hosts.len() ==> #[trigger] hosts[i] == (SshHostView {
                    name: hosts[i].name,
                    hostname: Some(hostname),
                    port,
                    user: Some(user),
                    identity_file: Some(key),
                })
        }),
{
    keywords_differ();
    lemma_keywords();
    let p = decimal(port as nat);
    lemma_decimal_is_a_value(port as nat);
    lemma_setting("Host"@, "host"@, names);
    lemma_setting("HostName"@, "hostname"@, hostname);
    lemma_setting("Port"@, "port"@, p);
    lemma_setting("User"@, "user"@, user);
    lemma_setting("IdentityFile"@, "identityfile"@, key);
    let (l0, l1, l2, l3, l4) = (
        setting("Host"@, names),
        setting("HostName"@, hostname),
        setting("Port"@, p),
        setting("User"@, user),
        setting("IdentityFile"@, key),
    );
    let t3 = l3.push('\n') + l4;
    let t2 = l2.push('\n') + t3;
    let t1 = l1.push('\n') + t2;
    let text = l0.push('\n') + t1;
    lemma_lines_of_joined(l3, l4);
    lemma_lines_of_joined(l2, t3);
    lemma_lines_of_joined(l1, t2);
    lemma_lines_of_joined(l0, t1);
    let lines = lines_of(text);
    assert(lines == seq![l0, l1, l2, l3, l4]);
    let body = seq![
        Directive { key: "hostname"@, value: hostname },
        Directive { key: "port"@, value: p },
        Directive { key: "user"@, value: user },
        Directive { key: "identityfile"@, value: key },
    ];
    let header = Directive { key: "host"@, value: names };
    assert(directives_of(lines) == seq![header] + body) by {
        reveal_with_fuel(directives_of, 6);
        assert(lines.drop_last() == seq![l0, l1, l2, l3]);
        assert(lines.drop_last().drop_last() == seq![l0, l1, l2]);
        assert(lines.drop_last().drop_last().drop_last() == seq![l0, l1]);
        assert(lines.drop_last().drop_last().drop_last().drop_last() == seq![l0]);
        assert(seq![l0].drop_last() == Seq::<Seq<char>>::empty());
        assert(directives_of(lines) == seq![header] + body);
    }
    let directives = directives_of(lines);
    assert(directives.skip(1) == body);
    other_keywords_are_no_headers();
    a_header_opens_a_block(text);
    let block = Block { header, body };
    assert(hosts_of(text) == hosts_of_block(block));
    every_name_is_a_host(block);
    port_is_read_back(port);
    assert forall|i: int| 0 <= i < hosts_of(text).len() implies #[trigger] hosts_of(text)[i] == (
    SshHostView {
        name: hosts_of(text)[i].name,
        hostname: Some(hostname),
        port,
        user: Some(user),
        identity_file: Some(key),
    }) by {
        a_block_sets_for_all_its_hosts(block, i, 0);
        a_block_sets_for_all_its_hosts(block, i, 1);
        a_block_sets_for_all_its_hosts(block, i, 2);
        a_block_sets_for_all_its_hosts(block, i, 3);
    }
}

proof fn other_keywords_are_no_headers()
    ensures
        "hostname"@ != "host"@ && "hostname"@ != "match"@,
        "port"@ != "host"@ && "port"@ != "match"@,
        "user"@ != "host"@ && "user"@ != "match"@,
        "identityfile"@ != "host"@ && "identityfile"@ != "match"@,
{
    reveal_strlit("host");
    reveal_strlit("match");
    reveal_strlit("hostname");
    reveal_strlit("port");
    reveal_strlit("user");
    reveal_strlit("identityfile");
    assert("host"@.len() == 4 && "hostname"@.len() == 8 && "match"@[0] == 'm');
    assert("host"@[0] == 'h' && "hostname"@[0] == 'h' && "port"@[0] == 'p');
    assert("user"@[0] == 'u' && "identityfile"@[0] == 'i');
}

/// White space around a value, and any amount of it behind the keyword, does not
/// matter.
pub proof fn white_space_around_a_value_does_not_matter(
    key: Seq<char>,
    blanks: Seq<char>,
    value: Seq<char>,
    behind: Seq<char>,
)
    requires
        is_word(key),
        key[0] != '#',
        blanks.len() > 0,
        all_white(blanks),
        value.len() > 0,
        trimmed(value) == value,
        all_white(behind),
    ensures
        directive_of(key + (blanks + value + behind)) == Some(
            Directive { key: lowercase(key), value },
        ),
{
    let rest = blanks + value + behind;
    assert(rest[0] == blanks[0]);
    assert(is_white(blanks[0]));
    lemma_directive_of_keyword(key, rest);
    trimming_takes_the_white_space_at_the_ends(value);
    lemma_trimmed_end_drops(blanks + value, behind);
    assert((blanks + value).last() == value.last());
    assert(trimmed_end(rest) == blanks + value);
    let more = blanks.skip(1);
    assert forall|i: int| 0 <= i < more.len() implies is_white(#[trigger] more[i]) by {
        assert(more[i] == blanks[i + 1]);
    }
    assert((blanks + value).skip(1) == more + value);
    lemma_trimmed_start_skips(more, value);
    assert(trimmed_start(value) == value);
}

/// The views of hosts are those of each of them, in their order, and the view of a
/// host holds all that is known of it.
pub proof fn a_view_holds_all_that_is_known(hosts: Seq<SshHost>, i: int)
    ensures
        host_views(hosts).len() == hosts.len(),
        0 <= i < hosts.len() ==> {
            let h = hosts[i];
            let view = host_views(hosts)[i];
            &&& view.name == h.name@ && view.port == h.port
            &&& view.hostname is Some <==> h.hostname is Some
            &&& view.user is Some <==> h.user is Some
            &&& view.identity_file is Some <==> h.identity_file is Some
            &&& h.hostname is Some ==> view.hostname->0 == h.hostname->0@
            &&& h.user is Some ==> view.user->0 == h.user->0@
            &&& h.identity_file is Some ==> view.identity_file->0 == h.identity_file->0@
        },
{
}

} // verus!
