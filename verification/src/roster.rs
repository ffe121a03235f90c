//! The players of a club, and which of them a message names.
//!
//! A message names a player at its beginning: by a word for the sender
//! (`@me` and its misspellings), by the player's chat identifier, or by one
//! of the player's aliases.

use crate::entity::texts;
use crate::text::{has_prefix, starts_with, to_chars, trim_from, trimmed};
use vstd::string::StringExecFns;
use vstd::prelude::*;
use vstd::seq_lib::{lemma_multiset_commutative, to_multiset_build, to_multiset_insert};

verus! {

/// The sender speaks of themself.
pub const MENTION_ME: &'static str = "@me";

/// `@me`, one key to the right.
pub const MENTION_NE: &'static str = "@ne";

/// `@me`, one key to the right on the second letter.
pub const MENTION_MW: &'static str = "@mw";

/// The sender speaks of themself, in Spanish.
pub const MENTION_YO: &'static str = "@yo";

/// A player of the club.
#[derive(Debug, Clone, PartialEq, Eq)]
pub struct Player {
    pub name: String,
    pub dupr_id: String,
    pub dupr_name: String,
    pub whatsapp_id: Option<String>,
    pub aliases: Vec<String>,
}

/// What a `Player` holds.
pub struct PlayerView {
    pub name: Seq<char>,
    pub dupr_id: Seq<char>,
    pub dupr_name: Seq<char>,
    pub whatsapp_id: Option<Seq<char>>,
    pub aliases: Seq<Seq<char>>,
}

impl View for Player {
    type V = PlayerView;

    open spec fn view(&self) -> PlayerView {
        PlayerView {
            name: self.name@,
            dupr_id: self.dupr_id@,
            dupr_name: self.dupr_name@,
            whatsapp_id: match self.whatsapp_id {
                Some(id) => Some(id@),
                None => None,
            },
            aliases: texts(self.aliases@),
        }
    }
}

/// What a sequence of players holds.
pub open spec fn player_views(players: Seq<Player>) -> Seq<PlayerView> {
    players.map_values(|p: Player| p@)
}

/// What a sequence of borrowed players holds.
pub open spec fn borrowed_views(players: Seq<&Player>) -> Seq<PlayerView> {
    players.map_values(|p: &Player| p@)
}

/// One of `taken` has the rating identifier `dupr_id`.
pub open spec fn is_taken(dupr_id: Seq<char>, taken: Seq<PlayerView>) -> bool {
    exists|k: int| 0 <= k < taken.len() && (#[trigger] taken[k]).dupr_id == dupr_id
}

/// The length of the word by which the sender speaks of themself, where
/// the message begins with one.
pub open spec fn self_mention(message: Seq<char>) -> Option<int> {
    if starts_with(message, MENTION_ME@) {
        Some(MENTION_ME@.len() as int)
    } else if starts_with(message, MENTION_NE@) {
        Some(MENTION_NE@.len() as int)
    } else if starts_with(message, MENTION_MW@) {
        Some(MENTION_MW@.len() as int)
    } else if starts_with(message, MENTION_YO@) {
        Some(MENTION_YO@.len() as int)
    } else {
        None
    }
}

/// The index of the first alias at or after `from` with which the message
/// begins.
pub open spec fn first_alias(aliases: Seq<Seq<char>>, message: Seq<char>, from: int) -> Option<int>
    decreases aliases.len() - from,
{
    if from < 0 || from >= aliases.len() {
        None
    } else if starts_with(message, aliases[from]) {
        Some(from)
    } else {
        first_alias(aliases, message, from + 1)
    }
}

/// The length of the name by which the message names the player, at its
/// beginning: the word for the sender, where the player is the sender; else
/// the player's chat identifier; else the first of the player's aliases
/// with which the message begins.
pub open spec fn named_by(player: PlayerView, sender: Seq<char>, message: Seq<char>) -> Option<int> {
    if self_mention(message) is Some && player.name == sender {
        self_mention(message)
    } else if player.whatsapp_id is Some && starts_with(message, player.whatsapp_id->0) {
        Some(player.whatsapp_id->0.len() as int)
    } else {
        match first_alias(player.aliases, message, 0) {
            Some(k) => Some(player.aliases[k].len() as int),
            None => None,
        }
    }
}

/// What is left of the message when the player claims it: the message
/// without the player's name and without the white space around the rest.
/// `None` where the player is taken already, or is not named.
pub open spec fn claim(player: PlayerView, taken: Seq<PlayerView>, sender: Seq<char>, message: Seq<char>) -> Option<
    Seq<char>,
> {
    if is_taken(player.dupr_id, taken) {
        None
    } else {
        match named_by(player, sender, message) {
            Some(n) => Some(trimmed(message.subrange(n, message.len() as int))),
            None => None,
        }
    }
}

/// The first player at or after `from` who claims the message, and what is
/// left of it.
pub open spec fn first_claim(
    club: Seq<PlayerView>,
    taken: Seq<PlayerView>,
    sender: Seq<char>,
    message: Seq<char>,
    from: int,
) -> Option<(int, Seq<char>)>
    decreases club.len() - from,
{
    if from < 0 || from >= club.len() {
        None
    } else {
        match claim(club[from], taken, sender, message) {
            Some(rest) => Some((from, rest)),
            None => first_claim(club, taken, sender, message, from + 1),
        }
    }
}

/// Whether one of `taken` has the rating identifier of `player`.
fn taken_already(player: &Player, taken: &Vec<&Player>) -> (r: bool)
    ensures
        r == is_taken(player.dupr_id@, borrowed_views(taken@)),
{
    let mut k: usize = 0;
    while k < taken.len()
        invariant
            k <= taken.len(),
            forall|j: int| 0 <= j < k ==> (#[trigger] borrowed_views(taken@)[j]).dupr_id != player.dupr_id@,
        decreases taken.len() - k,
    {
        if taken[k].dupr_id == player.dupr_id {
            assert(borrowed_views(taken@)[k as int].dupr_id == player.dupr_id@);
            return true;
        }
        k += 1;
    }
    false
}

/// The length of the word by which the sender speaks of themself.
fn self_mention_length(message: &Vec<char>) -> (r: Option<usize>)
    ensures
        match r {
            Some(n) => self_mention(message@) == Some(n as int) && n <= message.len(),
            None => self_mention(message@) is None,
        },
{
    let me = to_chars(MENTION_ME);
    if has_prefix(message, &me) {
        return Some(me.len());
    }
    let ne = to_chars(MENTION_NE);
    if has_prefix(message, &ne) {
        return Some(ne.len());
    }
    let mw = to_chars(MENTION_MW);
    if has_prefix(message, &mw) {
        return Some(mw.len());
    }
    let yo = to_chars(MENTION_YO);
    if has_prefix(message, &yo) {
        return Some(yo.len());
    }
    None
}

/// The length of the first alias with which the message begins.
fn alias_length(aliases: &Vec<String>, message: &Vec<char>) -> (r: Option<usize>)
    ensures
        match r {
            Some(n) => first_alias(texts(aliases@), message@, 0) matches Some(k)
                && 0 <= k < aliases@.len() && aliases@[k]@.len() == n && n <= message.len(),
            None => first_alias(texts(aliases@), message@, 0) is None,
        },
{
    let ghost views = texts(aliases@);
    let mut k: usize = 0;
    while k < aliases.len()
        invariant
            k <= aliases.len(),
            views == texts(aliases@),
            first_alias(views, message@, 0) == first_alias(views, message@, k as int),
        decreases aliases.len() - k,
    {
        let alias = to_chars(aliases[k].as_str());
        assert(views[k as int] == alias@);
        if has_prefix(message, &alias) {
            return Some(alias.len());
        }
        k += 1;
    }
    None
}

/// The length of the name by which the message names the player.
fn name_length(player: &Player, sender: &String, message: &Vec<char>) -> (r: Option<usize>)
    ensures
        match r {
            Some(n) => named_by(player@, sender@, message@) == Some(n as int) && n <= message.len(),
            None => named_by(player@, sender@, message@) is None,
        },
{
    if let Some(n) = self_mention_length(message) {
        if player.name == *sender {
            return Some(n);
        }
    }
    if let Some(id) = &player.whatsapp_id {
        let id = to_chars(id.as_str());
        if has_prefix(message, &id) {
            return Some(id.len());
        }
    }
    alias_length(&player.aliases, message)
}

/// The first player of `club` whom the message names at its beginning and
/// who is not among `other_dupr_ids`. The name and the white space around
/// what is left are taken out of the message; where no player is found the
/// message stays as it is.
pub fn get_player<'a>(
    club: &'a Vec<Player>,
    other_dupr_ids: &Vec<&Player>,
    sender: &String,
    message: &mut String,
) -> (r: Option<&'a Player>)
    ensures
        match first_claim(
            player_views(club@),
            borrowed_views(other_dupr_ids@),
            sender@,
            old(message)@,
            0,
        ) {
            Some((i, rest)) => r == Some(&club@[i]) && final(message)@ == rest,
            None => r is None && final(message)@ == old(message)@,
        },
{
    let text = to_chars(message.as_str());
    let ghost players = player_views(club@);
    let ghost taken = borrowed_views(other_dupr_ids@);
    let mut i: usize = 0;
    while i < club.len()
        invariant
            i <= club.len(),
            text@ == message@,
            message@ == old(message)@,
            players == player_views(club@),
            taken == borrowed_views(other_dupr_ids@),
            first_claim(players, taken, sender@, text@, 0) == first_claim(
                players,
                taken,
                sender@,
                text@,
                i as int,
            ),
        decreases club.len() - i,
    {
        let player = &club[i];
        assert(players[i as int] == player@);
        if !taken_already(player, other_dupr_ids) {
            if let Some(n) = name_length(player, sender, &text) {
                *message = trim_from(&text, n);
                return Some(player);
            }
        }
        i += 1;
    }
    None
}

/// Begins a chat identifier and an alias that names a player in a message.
pub const AT: &'static str = "@";

/// `s`, with the sign in front where it does not begin with it.
pub open spec fn with_at(s: Seq<char>) -> Seq<char> {
    if starts_with(s, AT@) {
        s
    } else {
        AT@ + s
    }
}

/// For each alias that does not begin with the sign, in their order, the
/// alias with the sign in front.
pub open spec fn added_aliases(aliases: Seq<Seq<char>>) -> Seq<Seq<char>>
    decreases aliases.len(),
{
    if aliases.len() == 0 {
        Seq::empty()
    } else if starts_with(aliases.last(), AT@) {
        added_aliases(aliases.drop_last())
    } else {
        added_aliases(aliases.drop_last()).push(AT@ + aliases.last())
    }
}

/// `a` comes before `b` in the order of strings, or is `b`: at the first
/// place where they differ `a` has the lesser character, or `a` ends there.
pub open spec fn in_order(a: Seq<char>, b: Seq<char>) -> bool
    decreases a.len(),
{
    if a.len() == 0 {
        true
    } else if b.len() == 0 {
        false
    } else if a[0] != b[0] {
        a[0] < b[0]
    } else {
        in_order(a.drop_first(), b.drop_first())
    }
}

/// The texts come in the order of strings.
pub open spec fn sorted(texts: Seq<Seq<char>>) -> bool {
    forall|i: int, j: int| 0 <= i < j < texts.len() ==> in_order(texts[i], texts[j])
}

/// `q` is `p` made ready for use: the chat identifier begins with the
/// sign; the aliases are those of `p` and, for each that does not begin
/// with the sign, the same with the sign in front, all in the order of
/// strings.
pub open spec fn normalized(p: PlayerView, q: PlayerView) -> bool {
    &&& q.name == p.name
    &&& q.dupr_id == p.dupr_id
    &&& q.dupr_name == p.dupr_name
    &&& q.whatsapp_id == match p.whatsapp_id {
        Some(id) => Some(with_at(id)),
        None => None,
    }
    &&& q.aliases.to_multiset() == (p.aliases + added_aliases(p.aliases)).to_multiset()
    &&& sorted(q.aliases)
}

/// Of two texts, one comes before the other or is the other.
pub proof fn lemma_in_order_total(a: Seq<char>, b: Seq<char>)
    ensures
        in_order(a, b) || in_order(b, a),
    decreases a.len(),
{
    if a.len() > 0 && b.len() > 0 && a[0] == b[0] {
        lemma_in_order_total(a.drop_first(), b.drop_first());
    }
}

/// What comes before a text comes before all that the text comes before.
pub proof fn lemma_in_order_transitive(a: Seq<char>, b: Seq<char>, c: Seq<char>)
    requires
        in_order(a, b),
        in_order(b, c),
    ensures
        in_order(a, c),
    decreases a.len(),
{
    if a.len() > 0 && b.len() > 0 && c.len() > 0 && a[0] == b[0] && b[0] == c[0] {
        lemma_in_order_transitive(a.drop_first(), b.drop_first(), c.drop_first());
    }
}

/// Whether `a` comes before `b` in the order of strings, or is `b`.
pub fn comes_first(a: &str, b: &str) -> (r: bool)
    ensures
        r == in_order(a@, b@),
{
    let x = to_chars(a);
    let y = to_chars(b);
    let mut i: usize = 0;
    assert(x@.skip(0) =~= x@ && y@.skip(0) =~= y@);
    while i < x.len() && i < y.len()
        invariant
            i <= x.len(),
            i <= y.len(),
            x@ == a@,
            y@ == b@,
            in_order(x@, y@) == in_order(x@.skip(i as int), y@.skip(i as int)),
        decreases x.len() - i,
    {
        proof {
            assert(x@.skip(i as int).drop_first() =~= x@.skip(i + 1));
            assert(y@.skip(i as int).drop_first() =~= y@.skip(i + 1));
            assert(x@.skip(i as int)[0] == x@[i as int]);
            assert(y@.skip(i as int)[0] == y@[i as int]);
        }
        if x[i] != y[i] {
            return x[i] < y[i];
        }
        i += 1;
    }
    i == x.len()
}

/// The strings of `v` in the order of strings.
pub fn sort_strings(v: Vec<String>) -> (r: Vec<String>)
    ensures
        texts(r@).to_multiset() == texts(v@).to_multiset(),
        sorted(texts(r@)),
{
    let mut rest = v;
    let mut out: Vec<String> = Vec::new();
    assert(texts(out@) + texts(rest@) =~= texts(v@));
    while rest.len() > 0
        invariant
            sorted(texts(out@)),
            (texts(out@) + texts(rest@)).to_multiset() == texts(v@).to_multiset(),
        decreases rest.len(),
    {
        let ghost waiting = texts(rest@);
        let e = match rest.pop() {
            Some(e) => e,
            None => String::new(),
        };
        let mut pos: usize = 0;
        while pos < out.len() && comes_first(out[pos].as_str(), e.as_str())
            invariant
                pos <= out.len(),
                forall|k: int| 0 <= k < pos ==> in_order(#[trigger] texts(out@)[k], e@),
            decreases out.len() - pos,
        {
            pos += 1;
        }
        proof {
            let t = texts(out@);
            let n = t.insert(pos as int, e@);
            assert forall|i: int, j: int| 0 <= i < j < n.len() implies in_order(n[i], n[j]) by {
                if i == pos {
                    lemma_in_order_total(t[pos as int], e@);
                    if pos < j - 1 {
                        assert(in_order(t[pos as int], t[j - 1]));
                        lemma_in_order_transitive(e@, t[pos as int], t[j - 1]);
                    }
                } else if j == pos {
                } else if i < pos && pos < j {
                    assert(in_order(t[i], t[j - 1]));
                } else if j < pos {
                    assert(in_order(t[i], t[j]));
                } else {
                    assert(in_order(t[i - 1], t[j - 1]));
                }
            }
            assert(texts(out@.insert(pos as int, e)) =~= n);
            to_multiset_insert(t, pos as int, e@);
            assert(waiting =~= texts(rest@).push(e@));
            to_multiset_build(texts(rest@), e@);
            lemma_multiset_commutative(n, texts(rest@));
            lemma_multiset_commutative(t, waiting);
            assert((n + texts(rest@)).to_multiset() =~= (t + waiting).to_multiset());
        }
        out.insert(pos, e);
    }
    assert(texts(out@) + texts(rest@) =~= texts(out@));
    out
}

/// `s`, with the sign in front where it does not begin with it.
pub fn put_at(s: String) -> (r: String)
    ensures
        r@ == with_at(s@),
{
    let v = to_chars(s.as_str());
    let at = to_chars(AT);
    if has_prefix(&v, &at) {
        s
    } else {
        let mut r = String::from_str(AT);
        r.append(s.as_str());
        r
    }
}

/// Makes a player ready for use.
pub fn normalize_player(player: Player) -> (r: Player)
    ensures
        normalized(player@, r@),
{
    let Player { name, dupr_id, dupr_name, whatsapp_id, aliases } = player;
    let whatsapp_id = match whatsapp_id {
        Some(id) => Some(put_at(id)),
        None => None,
    };
    let at = to_chars(AT);
    let mut added: Vec<String> = Vec::new();
    let mut k: usize = 0;
    assert(texts(aliases@).subrange(0, 0) =~= Seq::<Seq<char>>::empty());
    assert(texts(added@) =~= Seq::<Seq<char>>::empty());
    while k < aliases.len()
        invariant
            k <= aliases.len(),
            at@ == AT@,
            texts(added@) == added_aliases(texts(aliases@).subrange(0, k as int)),
        decreases aliases.len() - k,
    {
        let alias = to_chars(aliases[k].as_str());
        proof {
            assert(texts(aliases@).subrange(0, k + 1).drop_last() =~= texts(aliases@).subrange(
                0,
                k as int,
            ));
            assert(texts(aliases@).subrange(0, k + 1).last() == alias@);
        }
        if !has_prefix(&alias, &at) {
            let mut named = String::from_str(AT);
            named.append(aliases[k].as_str());
            assert(texts(added@.push(named)) =~= texts(added@).push(named@));
            added.push(named);
        }
        k += 1;
    }
    assert(texts(aliases@).subrange(0, aliases@.len() as int) =~= texts(aliases@));
    let mut all = aliases;
    all.append(&mut added);
    assert(texts(all@) =~= texts(aliases@) + added_aliases(texts(aliases@)));
    Player { name, dupr_id, dupr_name, whatsapp_id, aliases: sort_strings(all) }
}

/// Makes the players of a club ready for use.
pub fn normalize_players(players: Vec<Player>) -> (r: Vec<Player>)
    ensures
        r@.len() == players@.len(),
        forall|i: int| 0 <= i < players@.len() ==> normalized(#[trigger] players@[i]@, r@[i]@),
{
    let mut rest = players;
    let mut out: Vec<Player> = Vec::new();
    while rest.len() > 0
        invariant
            out@.len() + rest@.len() == players@.len(),
            forall|i: int| 0 <= i < out@.len() ==> normalized(#[trigger] players@[i]@, out@[i]@),
            forall|i: int| 0 <= i < rest@.len() ==> #[trigger] rest@[i] == players@[out@.len() + i],
        decreases rest@.len(),
    {
        let player = rest.remove(0);
        out.push(normalize_player(player));
    }
    out
}

} // verus!
