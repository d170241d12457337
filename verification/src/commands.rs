//! Commands typed at the chat prompt: how a line becomes a command, and what
//! a command answers.
//!
//! A command line starts with `/`. What follows is split at white space; the
//! first word names the command and the remaining words, joined by single
//! spaces, are its argument.

use vstd::prelude::*;
use vstd::string::*;
use crate::config::{texts_of, Config, ConfigView};
use crate::peer::{PeerInfo, PeerInfoView, PeerManager};
use crate::protocol::{Command, CommandView};
use crate::text::{chars_of, decimal, push_char, push_decimal, same_text, string_of};

verus! {

/// Whether a character is white space, as Unicode defines it.
pub open spec fn is_whitespace(c: char) -> bool {
    let n = c as u32;
    ||| 0x09 <= n <= 0x0d
    ||| n == 0x20
    ||| n == 0x85
    ||| n == 0xa0
    ||| n == 0x1680
    ||| 0x2000 <= n <= 0x200a
    ||| n == 0x2028
    ||| n == 0x2029
    ||| n == 0x202f
    ||| n == 0x205f
    ||| n == 0x3000
}

/// Length of the longest prefix of `s` that holds no white space.
pub open spec fn word_len(s: Seq<char>) -> int
    decreases s.len(),
{
    if s.len() == 0 || is_whitespace(s[0]) {
        0
    } else {
        1 + word_len(s.drop_first())
    }
}

/// The words of `s`: its maximal runs of characters that are not white
/// space, in order.
pub open spec fn words(s: Seq<char>) -> Seq<Seq<char>>
    decreases s.len(),
{
    if s.len() == 0 {
        Seq::empty()
    } else if is_whitespace(s[0]) {
        words(s.drop_first())
    } else {
        let n = word_len(s);
        if 0 < n <= s.len() {
            seq![s.take(n)] + words(s.skip(n))
        } else {
            Seq::empty()
        }
    }
}

/// The words joined by single spaces.
pub open spec fn join_words(parts: Seq<Seq<char>>) -> Seq<char>
    decreases parts.len(),
{
    if parts.len() == 0 {
        Seq::empty()
    } else if parts.len() == 1 {
        parts[0]
    } else {
        join_words(parts.drop_last()) + seq![' '] + parts.last()
    }
}

/// The command that a line of input stands for, if it stands for one.
pub open spec fn parsed_command(input: Seq<char>) -> Option<CommandView> {
    if input.len() == 0 || input[0] != '/' {
        None
    } else {
        let parts = words(input.skip(1));
        if parts.len() == 0 {
            None
        } else {
            let name = parts[0];
            let argument = join_words(parts.skip(1));
            if name == "quit"@ || name == "exit"@ {
                Some(CommandView::Quit)
            } else if name == "help"@ || name == "?"@ {
                Some(CommandView::Help)
            } else if name == "info"@ {
                Some(CommandView::Info)
            } else if name == "peers"@ || name == "list"@ {
                Some(CommandView::ListPeers)
            } else if name == "nick"@ || name == "nickname"@ {
                if parts.len() > 1 {
                    Some(CommandView::SetNickname(argument))
                } else {
                    None
                }
            } else if name == "send"@ || name == "file"@ {
                if parts.len() > 1 {
                    Some(CommandView::SendFile(argument))
                } else {
                    None
                }
            } else if name == "autoopen"@ || name == "auto"@ {
                Some(CommandView::ToggleAutoOpen)
            } else if name == "stats"@ || name == "statistics"@ {
                Some(CommandView::Stats)
            } else {
                None
            }
        }
    }
}

/// The view of an optional command.
pub open spec fn optional_command(command: Option<Command>) -> Option<CommandView> {
    match command {
        Some(c) => Some(c@),
        None => None,
    }
}

/// Whether a character is white space.
pub fn char_is_whitespace(c: char) -> (r: bool)
    ensures
        r == is_whitespace(c),
{
    let n = c as u32;
    (0x09 <= n && n <= 0x0d) || n == 0x20 || n == 0x85 || n == 0xa0 || n == 0x1680 || (0x2000 <= n
        && n <= 0x200a) || n == 0x2028 || n == 0x2029 || n == 0x202f || n == 0x205f || n
        == 0x3000
}

proof fn lemma_word_len(s: Seq<char>, n: int)
    requires
        0 <= n <= s.len(),
        forall|k: int| 0 <= k < n ==> !is_whitespace(s[k]),
        n == s.len() || is_whitespace(s[n]),
    ensures
        word_len(s) == n,
    decreases n,
{
    if n > 0 {
        let rest = s.drop_first();
        assert forall|k: int| 0 <= k < n - 1 implies !is_whitespace(rest[k]) by {
            assert(rest[k] == s[k + 1]);
        }
        lemma_word_len(rest, n - 1);
    }
}

/// Splits `chars[from..]` into its words.
#[verifier::rlimit(50)]
fn split_words(chars: &Vec<char>, from: usize) -> (out: Vec<String>)
    requires
        from <= chars@.len(),
    ensures
        texts_of(out@) == words(chars@.skip(from as int)),
{
    let mut out: Vec<String> = Vec::new();
    let total = chars.len();
    let mut i: usize = from;
    assert(texts_of(out@) + words(chars@.skip(i as int)) =~= words(chars@.skip(from as int)));
    while i < total
        invariant
            total == chars@.len(),
            from <= i <= total,
            words(chars@.skip(from as int)) == texts_of(out@) + words(chars@.skip(i as int)),
        decreases total - i,
    {
        let ghost rest = chars@.skip(i as int);
        if char_is_whitespace(chars[i]) {
            assert(rest.drop_first() =~= chars@.skip(i + 1));
            i += 1;
        } else {
            let mut j: usize = i + 1;
            while j < total && !char_is_whitespace(chars[j])
                invariant
                    total == chars@.len(),
                    i < j <= total,
                    forall|k: int| i <= k < j ==> !is_whitespace(chars@[k]),
                decreases total - j,
            {
                j += 1;
            }
            let word = string_of(chars, i, j);
            proof {
                lemma_word_len(rest, j - i);
                assert(rest.take(j - i) =~= chars@.subrange(i as int, j as int));
                assert(rest.skip(j - i) =~= chars@.skip(j as int));
                assert(texts_of(out@.push(word)) =~= texts_of(out@) + seq![word@]);
            }
            out.push(word);
            i = j;
        }
    }
    assert(words(chars@.skip(i as int)) =~= Seq::<Seq<char>>::empty());
    out
}

/// Joins `parts[from..]` by single spaces.
#[verifier::rlimit(50)]
fn join_from(parts: &Vec<String>, from: usize) -> (s: String)
    requires
        from <= parts@.len(),
    ensures
        s@ == join_words(texts_of(parts@).skip(from as int)),
{
    let mut s = String::new();
    let ghost all = texts_of(parts@).skip(from as int);
    let mut i: usize = from;
    assert(all.take(0) =~= Seq::<Seq<char>>::empty());
    while i < parts.len()
        invariant
            from <= i <= parts@.len(),
            all == texts_of(parts@).skip(from as int),
            s@ == join_words(all.take(i - from)),
        decreases parts@.len() - i,
    {
        let ghost done = all.take(i - from);
        let ghost next = all.take(i - from + 1);
        if i > from {
            push_char(&mut s, ' ');
        }
        s.append(parts[i].as_str());
        proof {
            assert(next.drop_last() =~= done);
            assert(next.last() == parts@[i as int]@);
            if i > from {
                assert(s@ =~= join_words(done) + seq![' '] + parts@[i as int]@);
            } else {
                assert(s@ =~= parts@[i as int]@);
            }
        }
        i += 1;
    }
    assert(all.take(i - from) =~= all);
    s
}

/// The help text.
pub open spec fn help_text() -> Seq<char> {
    "Available commands:\n  /help, /?          - Show this help message\n  /info              - Show connection information\n  /peers, /list      - List connected peers\n  /nick <name>       - Set your nickname\n  /send <file>       - Send a file to peer(s)\n  /autoopen, /auto   - Toggle auto-open for media files\n  /stats             - Show message reliability statistics\n  /quit, /exit       - Exit the chat\n\nType normally to send messages to all connected peers."@
}

/// The answer to the statistics command.
pub open spec fn stats_hint() -> Seq<char> {
    "Message reliability statistics:\n  Feature implemented - acknowledgments and retries active\n  Use debug logging to see detailed reliability info"@
}

/// The name under which a user or peer without a nickname is shown.
pub open spec fn shown_name(nickname: Option<Seq<char>>) -> Seq<char> {
    match nickname {
        Some(name) => name,
        None => "Anonymous"@,
    }
}

/// The text that describes the session: nickname, number of peers and the
/// settings that matter to the user.
pub open spec fn info_text(config: ConfigView, peer_count: nat) -> Seq<char> {
    "Chat Information:\n  Nickname: "@ + shown_name(config.nickname) + "\n  Connected peers: "@
        + decimal(peer_count) + "\n  Encryption: "@ + (if config.enable_encryption {
        "Enabled"@
    } else {
        "Disabled"@
    }) + "\n  Buffer size: "@ + decimal(config.buffer_size as nat) + " bytes\n  Max file size: "@
        + decimal(config.max_file_size_mb as nat) + " MB"@
}

/// The line of the peer list for one peer.
pub open spec fn peer_line(info: PeerInfoView) -> Seq<char> {
    "  - "@ + shown_name(info.nickname) + " ("@ + info.id + ") from "@ + info.address + "\n"@
}

/// The lines of the peer list for the given peers, in order.
pub open spec fn peer_lines(peers: Seq<PeerInfoView>) -> Seq<char>
    decreases peers.len(),
{
    if peers.len() == 0 {
        Seq::empty()
    } else {
        peer_lines(peers.drop_last()) + peer_line(peers.last())
    }
}

/// The text that lists the given peers.
pub open spec fn peer_list_text(peers: Seq<PeerInfoView>) -> Seq<char> {
    if peers.len() == 0 {
        "No peers connected."@
    } else {
        "Connected peers ("@ + decimal(peers.len()) + "):\n"@ + peer_lines(peers)
    }
}

/// The views of a list of peer descriptions.
pub open spec fn info_views(peers: Seq<PeerInfo>) -> Seq<PeerInfoView> {
    peers.map_values(|info: PeerInfo| info@)
}

/// The answer to a command, given the settings before the command and the
/// peers that are connected.
pub open spec fn response_text(command: CommandView, config: ConfigView, peers: Seq<PeerInfoView>)
    -> Seq<char> {
    match command {
        CommandView::Help => help_text(),
        CommandView::Info => info_text(config, peers.len()),
        CommandView::ListPeers => peer_list_text(peers),
        CommandView::SetNickname(name) => "Nickname set to: "@ + name,
        CommandView::Quit => "Goodbye!"@,
        CommandView::SendFile(path) => "Preparing to send file: "@ + path,
        CommandView::ToggleAutoOpen => "Auto-open media: "@ + (if config.auto_open_media {
            "disabled"@
        } else {
            "enabled"@
        }),
        CommandView::Stats => stats_hint(),
    }
}

/// The settings after a command.
pub open spec fn config_after(command: CommandView, config: ConfigView) -> ConfigView {
    match command {
        CommandView::SetNickname(name) => ConfigView { nickname: Some(name), ..config },
        CommandView::ToggleAutoOpen => ConfigView {
            auto_open_media: !config.auto_open_media,
            ..config
        },
        _ => config,
    }
}

/// Whether a command changes the settings, so that they have to be saved.
pub open spec fn changes_config(command: CommandView) -> bool {
    command is SetNickname || command is ToggleAutoOpen
}

/// What a command leads to.
#[derive(Debug)]
pub struct CommandOutcome {
    /// The text to show to the user.
    pub response: String,
    /// Whether the settings changed and have to be saved.
    pub config_changed: bool,
}

/// Carries out commands against the settings it holds.
pub struct CommandHandler {
    config: Config,
}

impl View for CommandHandler {
    type V = ConfigView;

    closed spec fn view(&self) -> ConfigView {
        self.config@
    }
}

impl CommandHandler {
    /// A handler that holds the given settings.
    pub fn new(config: Config) -> (handler: CommandHandler)
        ensures
            handler@ == config@,
    {
        CommandHandler { config }
    }

    /// The settings the handler holds.
    pub fn config(&self) -> (config: &Config)
        ensures
            config@ == self@,
    {
        &self.config
    }

    /// Reads a line of input as a command. Returns `None` for a line that
    /// does not start with `/`, names no command, or lacks the argument that
    /// its command needs.
    #[verifier::rlimit(50)]
    pub fn parse_command(input: &str) -> (r: Option<Command>)
        ensures
            optional_command(r) == parsed_command(input@),
    {
        let chars = chars_of(input);
        if chars.len() == 0 || chars[0] != '/' {
            return None;
        }
        let parts = split_words(&chars, 1);
        if parts.len() == 0 {
            return None;
        }
        let name = parts[0].as_str();
        assert(texts_of(parts@)[0] == name@);
        if same_text(name, "quit") || same_text(name, "exit") {
            Some(Command::Quit)
        } else if same_text(name, "help") || same_text(name, "?") {
            Some(Command::Help)
        } else if same_text(name, "info") {
            Some(Command::Info)
        } else if same_text(name, "peers") || same_text(name, "list") {
            Some(Command::ListPeers)
        } else if same_text(name, "nick") || same_text(name, "nickname") {
            if parts.len() > 1 {
                Some(Command::SetNickname(join_from(&parts, 1)))
            } else {
                None
            }
        } else if same_text(name, "send") || same_text(name, "file") {
            if parts.len() > 1 {
                Some(Command::SendFile(join_from(&parts, 1)))
            } else {
                None
            }
        } else if same_text(name, "autoopen") || same_text(name, "auto") {
            Some(Command::ToggleAutoOpen)
        } else if same_text(name, "stats") || same_text(name, "statistics") {
            Some(Command::Stats)
        } else {
            None
        }
    }

    /// The help text.
    pub fn get_help_text(&self) -> (s: String)
        ensures
            s@ == help_text(),
    {
        "Available commands:\n  /help, /?          - Show this help message\n  /info              - Show connection information\n  /peers, /list      - List connected peers\n  /nick <name>       - Set your nickname\n  /send <file>       - Send a file to peer(s)\n  /autoopen, /auto   - Toggle auto-open for media files\n  /stats             - Show message reliability statistics\n  /quit, /exit       - Exit the chat\n\nType normally to send messages to all connected peers.".to_owned()
    }

    /// The text that describes the session.
    #[verifier::rlimit(50)]
    pub fn get_info_text(&self, peer_count: usize) -> (s: String)
        ensures
            s@ == info_text(self@, peer_count as nat),
    {
        let mut s = "Chat Information:\n  Nickname: ".to_owned();
        match &self.config.nickname {
            Some(name) => s.append(name.as_str()),
            None => s.append("Anonymous"),
        }
        s.append("\n  Connected peers: ");
        push_decimal(&mut s, peer_count as u64);
        s.append("\n  Encryption: ");
        if self.config.enable_encryption {
            s.append("Enabled");
        } else {
            s.append("Disabled");
        }
        s.append("\n  Buffer size: ");
        push_decimal(&mut s, self.config.buffer_size as u64);
        s.append(" bytes\n  Max file size: ");
        push_decimal(&mut s, self.config.max_file_size_mb);
        s.append(" MB");
        assert(s@ =~= info_text(self@, peer_count as nat));
        s
    }

    /// The text that lists the given peers.
    #[verifier::rlimit(50)]
    pub fn list_peers(&self, peers: &Vec<PeerInfo>) -> (s: String)
        ensures
            s@ == peer_list_text(info_views(peers@)),
    {
        if peers.len() == 0 {
            return "No peers connected.".to_owned();
        }
        let mut s = "Connected peers (".to_owned();
        push_decimal(&mut s, peers.len() as u64);
        s.append("):\n");
        let ghost head = s@;
        let ghost all = info_views(peers@);
        let mut i: usize = 0;
        assert(all.take(0) =~= Seq::<PeerInfoView>::empty());
        while i < peers.len()
            invariant
                i <= peers@.len(),
                all == info_views(peers@),
                s@ == head + peer_lines(all.take(i as int)),
            decreases peers@.len() - i,
        {
            let ghost before = s@;
            s.append("  - ");
            match &peers[i].nickname {
                Some(name) => s.append(name.as_str()),
                None => s.append("Anonymous"),
            }
            s.append(" (");
            s.append(peers[i].id.as_str());
            s.append(") from ");
            s.append(peers[i].address.as_str());
            s.append("\n");
            proof {
                assert(all.take(i + 1).drop_last() =~= all.take(i as int));
                assert(all.take(i + 1).last() == peers@[i as int]@);
                assert(s@ =~= before + peer_line(peers@[i as int]@));
                assert(s@ =~= head + peer_lines(all.take(i + 1)));
            }
            i += 1;
        }
        assert(all.take(i as int) =~= all);
        s
    }

    /// Carries out a command: answers it and, for the commands that change
    /// the settings, changes them and says that they have to be saved.
    #[verifier::rlimit(50)]
    pub fn handle_command(&mut self, command: Command, peer_manager: &PeerManager) -> (outcome:
        CommandOutcome)
        requires
            peer_manager.wf(),
        ensures
            final(self)@ == config_after(command@, old(self)@),
            outcome.config_changed == changes_config(command@),
            exists|peers: Seq<PeerInfoView>| #[trigger]
                listed(peer_manager, peers) && outcome.response@ == response_text(
                    command@,
                    old(self)@,
                    peers,
                ),
    {
        let peers = peer_manager.list_peers();
        proof {
            let views = info_views(peers@);
            assert forall|i: int| 0 <= i < views.len() implies peer_manager@.contains_key(
                #[trigger] peer_manager.ids()[i],
            ) && views[i] == peer_manager@[peer_manager.ids()[i]].info by {}
            assert(listed(peer_manager, views));
        }
        let (response, config_changed) = match command {
            Command::Help => (self.get_help_text(), false),
            Command::Info => (self.get_info_text(peers.len()), false),
            Command::ListPeers => (self.list_peers(&peers), false),
            Command::SetNickname(name) => {
                let mut s = "Nickname set to: ".to_owned();
                s.append(name.as_str());
                self.config.nickname = Some(name);
                (s, true)
            },
            Command::Quit => ("Goodbye!".to_owned(), false),
            Command::SendFile(path) => {
                let mut s = "Preparing to send file: ".to_owned();
                s.append(path.as_str());
                (s, false)
            },
            Command::ToggleAutoOpen => {
                self.config.auto_open_media = !self.config.auto_open_media;
                let mut s = "Auto-open media: ".to_owned();
                if self.config.auto_open_media {
                    s.append("enabled");
                } else {
                    s.append("disabled");
                }
                (s, true)
            },
            Command::Stats => (
                "Message reliability statistics:\n  Feature implemented - acknowledgments and retries active\n  Use debug logging to see detailed reliability info".to_owned(),
                false,
            ),
        };
        CommandOutcome { response, config_changed }
    }
}

/// Whether `peers` describes the registered peers of `manager`, one entry
/// for each, in the order of its ids.
pub open spec fn listed(manager: &PeerManager, peers: Seq<PeerInfoView>) -> bool {
    &&& peers.len() == manager.ids().len()
    &&& forall|i: int|
        0 <= i < peers.len() ==> manager@.contains_key(#[trigger] manager.ids()[i]) && peers[i]
            == manager@[manager.ids()[i]].info
}

} // verus!
