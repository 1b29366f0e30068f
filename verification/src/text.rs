use vstd::prelude::*;

verus! {

/// What the hit message says after its crit prefix: it names attacker,
/// defender and the damage dealt. The decimal rendering of the damage
/// number is not worth spelling out; the text is a function of these three
/// arguments alone.
pub uninterp spec fn hit_body_of(me: Seq<char>, enemy: Seq<char>, damage: int) -> Seq<char>;

/// Relies on the `format!` macro of std: composes the kill message shown in
/// the log.
#[verifier::external_body]
pub fn kill_message(prefix: &str, me: &String, enemy: &String) -> (r: String)
    ensures
        r@ == prefix@ + me@ + " killed "@ + enemy@ + "!"@,
{
    format!("{}{} killed {}!", prefix, me, enemy)
}

/// Relies on the `format!` macro of std: composes the hit message, the
/// given prefix first.
#[verifier::external_body]
pub fn hit_message(prefix: &str, me: &String, enemy: &String, damage: i32) -> (r: String)
    ensures
        r@ == prefix@ + hit_body_of(me@, enemy@, damage as int),
{
    format!("{}{} hit {} with {}!", prefix, me, enemy, damage)
}

/// Relies on the `format!` macro of std: composes the miss message.
#[verifier::external_body]
pub fn miss_message(me: &String, enemy: &String) -> (r: String)
    ensures
        r@ == me@ + " missed "@ + enemy@,
{
    format!("{} missed {}", me, enemy)
}

/// Relies on the `format!` macro of std: prepends a tier tag to a name.
#[verifier::external_body]
pub fn prefixed_name(prefix: &str, name: &String) -> (r: String)
    ensures
        r@ == prefix@ + name@,
{
    format!("{}{}", prefix, name)
}

/// Relies on the `format!` macro of std: joins a quality word and a slot
/// noun into an item name.
#[verifier::external_body]
pub fn join_words(quality: &str, part: &str) -> (r: String)
    ensures
        r@ == quality@ + " "@ + part@,
{
    format!("{} {}", quality, part)
}

/// Relies on the `format!` macro of std: the message shown when the player
/// equips an item.
#[verifier::external_body]
pub fn equipped_message(player: &String, item: &String) -> (r: String)
    ensures
        r@ == "Player "@ + player@ + " equipped "@ + item@,
{
    format!("Player {} equipped {}", player, item)
}

/// Relies on the `format!` macro of std: the message shown when the player
/// drops an item.
#[verifier::external_body]
pub fn dropped_message(player: &String, item: &String) -> (r: String)
    ensures
        r@ == "Player "@ + player@ + " dropped "@ + item@ + "."@,
{
    format!("Player {} dropped {}.", player, item)
}

/// Relies on the `format!` macro of std: the message shown when the player
/// drinks a potion.
#[verifier::external_body]
pub fn healed_message(player: &String) -> (r: String)
    ensures
        r@ == "Player "@ + player@ + " have been healed."@,
{
    format!("Player {} have been healed.", player)
}

/// Relies on the `format!` macro of std: the message shown when a looted
/// item lands in the backpack.
#[verifier::external_body]
pub fn item_added_message(item: &String) -> (r: String)
    ensures
        r@ == "Item "@ + item@ + " added to Backpack"@,
{
    format!("Item {} added to Backpack", item)
}

} // verus!
