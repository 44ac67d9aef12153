//! The console commands that manage a server's players, as text.

use crate::text::texts;
use vstd::prelude::*;
use vstd::string::*;

verus! {

/// A command about one player: the verb and the player's name, separated
/// by a space.
pub open spec fn player_command_text(verb: Seq<char>, name: Seq<char>) -> Seq<char> {
    verb + " "@ + name
}

/// A command about one player that may give a reason: the reason follows the
/// name after a space, and is left out with its space where it is empty.
pub open spec fn reasoned_command_text(verb: Seq<char>, name: Seq<char>, reason: Seq<char>) -> Seq<
    char,
> {
    if reason.len() == 0 {
        player_command_text(verb, name)
    } else {
        player_command_text(verb, name) + " "@ + reason
    }
}

/// What the user is told once a command has gone to the server.
pub open spec fn sent_notice_text(command: Seq<char>) -> Seq<char> {
    "Sent: "@ + command
}

/// Writes a command about one player.
pub fn player_command(verb: &str, name: &str) -> (r: String)
    ensures
        r@ == player_command_text(verb@, name@),
{
    let mut command = String::from_str(verb);
    command.append(" ");
    command.append(name);
    command
}

/// Writes a command about one player with an optional reason.
pub fn reasoned_command(verb: &str, name: &str, reason: &str) -> (r: String)
    ensures
        r@ == reasoned_command_text(verb@, name@, reason@),
{
    let mut command = player_command(verb, name);
    if !reason.is_empty() {
        command.append(" ");
        command.append(reason);
    }
    command
}

/// Adds a player to the whitelist.
pub fn whitelist_add_command(name: &str) -> (r: String)
    ensures
        r@ == player_command_text("whitelist add"@, name@),
{
    player_command("whitelist add", name)
}

/// Takes a player off the whitelist.
pub fn whitelist_remove_command(name: &str) -> (r: String)
    ensures
        r@ == player_command_text("whitelist remove"@, name@),
{
    player_command("whitelist remove", name)
}

/// Bans a player, with a reason where one is given.
pub fn ban_command(name: &str, reason: &str) -> (r: String)
    ensures
        r@ == reasoned_command_text("ban"@, name@, reason@),
{
    reasoned_command("ban", name, reason)
}

/// Lifts a player's ban.
pub fn pardon_command(name: &str) -> (r: String)
    ensures
        r@ == player_command_text("pardon"@, name@),
{
    player_command("pardon", name)
}

/// Makes a player an operator.
pub fn op_command(name: &str) -> (r: String)
    ensures
        r@ == player_command_text("op"@, name@),
{
    player_command("op", name)
}

/// Takes a player's operator status away.
pub fn deop_command(name: &str) -> (r: String)
    ensures
        r@ == player_command_text("deop"@, name@),
{
    player_command("deop", name)
}

/// Kicks a player, with a reason where one is given.
pub fn kick_command(name: &str, reason: &str) -> (r: String)
    ensures
        r@ == reasoned_command_text("kick"@, name@, reason@),
{
    reasoned_command("kick", name, reason)
}

/// Writes the notice that a command was sent.
pub fn sent_notice(command: &str) -> (r: String)
    ensures
        r@ == sent_notice_text(command@),
{
    String::from_str("Sent: ").concat(command)
}

/// The lines of a log joined into one text, a line feed between each two.
pub open spec fn joined_lines(lines: Seq<Seq<char>>) -> Seq<char>
    decreases lines.len(),
{
    if lines.len() == 0 {
        Seq::empty()
    } else if lines.len() == 1 {
        lines[0]
    } else {
        joined_lines(lines.drop_last()) + "\n"@ + lines.last()
    }
}

/// Joins the lines of a log for export.
pub fn join_log_lines(lines: &Vec<String>) -> (r: String)
    ensures
        r@ == joined_lines(texts(lines@)),
{
    let mut out = String::new();
    let mut i: usize = 0;
    proof {
        assert(texts(lines@).take(0) =~= Seq::<Seq<char>>::empty());
    }
    while i < lines.len()
        invariant
            i <= lines@.len(),
            out@ == joined_lines(texts(lines@).take(i as int)),
        decreases lines@.len() - i,
    {
        proof {
            let upto = texts(lines@).take(i + 1);
            assert(upto.drop_last() =~= texts(lines@).take(i as int));
            assert(upto.last() == lines@[i as int]@);
        }
        if i > 0 {
            out.append("\n");
        } else {
            proof {
                assert(out@ + lines@[i as int]@ =~= lines@[i as int]@);
            }
        }
        out.append(lines[i].as_str());
        i = i + 1;
    }
    proof {
        assert(texts(lines@).take(lines@.len() as int) =~= texts(lines@));
    }
    out
}

} // verus!
