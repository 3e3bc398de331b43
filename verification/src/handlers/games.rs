//! `/games`: join or leave a game's tag role by picking the game.
use vstd::prelude::*;
use crate::handlers::{holds_id, GuildRole, HandlerResponse};
use crate::text::{chars_of, seq_eq, string_of};

verus! {

/// A game and the role that tags its players.
#[derive(Debug, Clone)]
pub struct Game {
    pub name: String,
    pub role_name: String,
    pub role_id: u64,
}

/// The games on offer.
pub struct Games {
    pub games: Vec<Game>,
}

/// The name, role name and role id of some games.
pub open spec fn game_views(g: Seq<Game>) -> Seq<(Seq<char>, Seq<char>, u64)> {
    g.map_values(|x: Game| (x.name@, x.role_name@, x.role_id))
}

/// A string with its quotes and escapes undone (`snailquote::unescape`); `None`
/// when it is not validly quoted.
pub uninterp spec fn unescaped(s: Seq<char>) -> Option<Seq<char>>;

/// `snailquote::unescape`: the result is the named `unescaped` text of `s`, `None`
/// when the crate reports an error.
#[verifier::external_body]
fn unescape(s: &str) -> (r: Option<String>)
    ensures
        match r {
            Some(t) => unescaped(s@) == Some(t@),
            None => unescaped(s@) is None,
        },
{
    match snailquote::unescape(s) {
        Ok(t) => Some(t),
        Err(_) => None,
    }
}

/// The games whose role is one of the guild's, with that role's id: for each role in
/// order, each game of that role name in order.
pub open spec fn matched_games(games: Seq<Game>, roles: Seq<GuildRole>) -> Seq<(Seq<char>, Seq<char>, u64)>
    decreases roles.len(),
{
    if roles.len() == 0 {
        Seq::empty()
    } else {
        matched_games(games, roles.drop_last()) + games.filter_map(
            |g: Game| if g.role_name@ == roles.last().name@ {
                Some((g.name@, g.role_name@, roles.last().id))
            } else {
                None
            },
        )
    }
}

/// The index of the first game with the role name `name`.
pub open spec fn first_game_named(games: Seq<Game>, name: Seq<char>) -> Option<int> {
    if exists|i: int| 0 <= i < games.len() && (#[trigger] games[i]).role_name@ == name {
        Some(choose|i: int| 0 <= i < games.len() && games[i].role_name@ == name && forall|j: int|
            0 <= j < i ==> (#[trigger] games[j]).role_name@ != name)
    } else {
        None
    }
}

/// The game a quoted role name picks: the first game with the unquoted role name.
pub open spec fn game_for(games: Seq<Game>, quoted: Seq<char>) -> Option<int> {
    match unescaped(quoted) {
        Some(name) => first_game_named(games, name),
        None => None,
    }
}

impl Game {
    /// A game tagged by the role named `role_name`, whose id is not known yet.
    pub fn new(name: String, role_name: String) -> (g: Game)
        ensures
            g.name@ == name@,
            g.role_name@ == role_name@,
            g.role_id == 0,
    {
        Game { name, role_name, role_id: 0 }
    }
}

impl Games {
    /// The games on offer: Warzone, Apex and Doom, tagged `tag-warzone`, `tag-apex`
    /// and `tag-doom`.
    pub fn new() -> (r: Games)
        ensures
            game_views(r.games@) == seq![
                ("Warzone"@, "tag-warzone"@, 0u64),
                ("Apex"@, "tag-apex"@, 0u64),
                ("Doom"@, "tag-doom"@, 0u64),
            ],
    {
        let mut g: Vec<Game> = Vec::new();
        g.push(Game::new(String::from_str("Warzone"), String::from_str("tag-warzone")));
        g.push(Game::new(String::from_str("Apex"), String::from_str("tag-apex")));
        g.push(Game::new(String::from_str("Doom"), String::from_str("tag-doom")));
        let r = Games { games: g };
        assert(game_views(r.games@) =~= seq![
            ("Warzone"@, "tag-warzone"@, 0u64),
            ("Apex"@, "tag-apex"@, 0u64),
            ("Doom"@, "tag-doom"@, 0u64),
        ]);
        r
    }

    /// The games whose role the guild has, each with that role's id.
    pub fn match_roles_and_games(games: &Vec<Game>, roles: &Vec<GuildRole>) -> (r: Vec<Game>)
        ensures
            game_views(r@) == matched_games(games@, roles@),
    {
        let mut r: Vec<Game> = Vec::new();
        let mut i: usize = 0;
        assert(roles@.take(0) =~= Seq::<GuildRole>::empty());
        while i < roles.len()
            invariant
                i <= roles.len(),
                game_views(r@) == matched_games(games@, roles@.take(i as int)),
            decreases roles.len() - i,
        {
            let role = &roles[i];
            let rn = chars_of(role.name.as_str());
            let ghost f = |g: Game| if g.role_name@ == role.name@ {
                Some((g.name@, g.role_name@, role.id))
            } else {
                None
            };
            let ghost head = game_views(r@);
            let mut j: usize = 0;
            assert(games@.take(0) =~= Seq::<Game>::empty());
            assert(game_views(r@) =~= head + games@.take(0).filter_map(f));
            while j < games.len()
                invariant
                    j <= games.len(),
                    rn@ == role.name@,
                    f == (|g: Game| if g.role_name@ == role.name@ {
                        Some((g.name@, g.role_name@, role.id))
                    } else {
                        None
                    }),
                    game_views(r@) == head + games@.take(j as int).filter_map(f),
                decreases games.len() - j,
            {
                assert(games@.take(j + 1).drop_last() =~= games@.take(j as int));
                assert(games@.take(j + 1).last() == games@[j as int]);
                let gn = chars_of(games[j].role_name.as_str());
                if seq_eq(&rn, &gn) {
                    let ghost r0 = game_views(r@);
                    r.push(
                        Game {
                            name: games[j].name.clone(),
                            role_name: games[j].role_name.clone(),
                            role_id: role.id,
                        },
                    );
                    assert(game_views(r@) =~= r0 + seq![(games@[j as int].name@, games@[j as int].role_name@, role.id)]);
                }
                j += 1;
            }
            assert(games@.take(j as int) =~= games@);
            assert(roles@.take(i + 1).drop_last() =~= roles@.take(i as int));
            assert(roles@.take(i + 1).last() == roles@[i as int]);
            i += 1;
        }
        assert(roles@.take(i as int) =~= roles@);
        r
    }

    /// The first game with the role name that `role_name` spells once unquoted.
    pub fn find_game_from_role_name(games: &Vec<Game>, role_name: &str) -> (r: Option<Game>)
        requires
            unescaped(role_name@) is Some,
        ensures
            match game_for(games@, role_name@) {
                Some(i) => r matches Some(g) && g.name@ == games@[i].name@ && g.role_name@
                    == games@[i].role_name@ && g.role_id == games@[i].role_id,
                None => r is None,
            },
    {
        match Games::try_find_game_from_role_name(games, role_name) {
            Some(found) => found,
            None => None,
        }
    }

    /// The game a quoted role name picks, or `None` when it does not unquote.
    pub fn try_find_game_from_role_name(games: &Vec<Game>, role_name: &str) -> (r: Option<Option<Game>>)
        ensures
            unescaped(role_name@) is None ==> r is None,
            unescaped(role_name@) is Some ==> (r matches Some(found) && match game_for(games@, role_name@) {
                Some(i) => found matches Some(g) && g.name@ == games@[i].name@ && g.role_name@
                    == games@[i].role_name@ && g.role_id == games@[i].role_id,
                None => found is None,
            }),
    {
        let name = match unescape(role_name) {
            Some(n) => n,
            None => return None,
        };
        let nv = chars_of(name.as_str());
        let mut i: usize = 0;
        while i < games.len()
            invariant
                i <= games.len(),
                unescaped(role_name@) == Some(nv@),
                forall|j: int| 0 <= j < i ==> (#[trigger] games@[j]).role_name@ != nv@,
            decreases games.len() - i,
        {
            let gn = chars_of(games[i].role_name.as_str());
            if seq_eq(&gn, &nv) {
                proof {
                    let k = i as int;
                    assert(0 <= k < games@.len() && (#[trigger] games@[k]).role_name@ == nv@);
                    let c = choose|c: int| 0 <= c < games@.len() && games@[c].role_name@ == nv@
                        && forall|j: int| 0 <= j < c ==> (#[trigger] games@[j]).role_name@ != nv@;
                    assert(c == k) by {
                        if c > k {
                            assert(games@[k].role_name@ != nv@);
                        }
                    }
                }
                return Some(
                    Some(
                        Game {
                            name: games[i].name.clone(),
                            role_name: games[i].role_name.clone(),
                            role_id: games[i].role_id,
                        },
                    ),
                );
            }
            i += 1;
        }
        Some(None)
    }

    /// The role `role_id`, if the member holds it.
    pub fn does_user_have_role(user_roles: &Vec<u64>, role_id: u64) -> (r: Option<u64>)
        ensures
            r == (if user_roles@.contains(role_id) { Some(role_id) } else { None }),
    {
        if holds_id(user_roles, role_id) {
            Some(role_id)
        } else {
            None
        }
    }
}

// ---------------------------------------------------------------------------
// /games add:<role> remove:<role>
// ---------------------------------------------------------------------------

/// An option of the command: its name and, when given, its value as JSON text.
#[derive(Debug, Clone)]
pub struct CommandOption {
    pub name: String,
    pub value: Option<String>,
}

/// A change to the member's roles.
#[derive(Debug, Clone, Copy, PartialEq, Eq, Structural)]
pub enum RoleEdit {
    Add(u64),
    Remove(u64),
}

/// The reply to a request that could not be carried out.
pub open spec fn invalid_text() -> Seq<char> {
    "You didnt fill out the request correctly"@
}

/// `roles` without any copy of `id`.
pub open spec fn without(roles: Seq<u64>, id: u64) -> Seq<u64>
    decreases roles.len(),
{
    if roles.len() == 0 {
        roles
    } else if roles.last() == id {
        without(roles.drop_last(), id)
    } else {
        without(roles.drop_last(), id).push(roles.last())
    }
}

/// The value of an `add` or `remove` option, if it has one, unquotes.
pub open spec fn option_unquotes(o: CommandOption) -> bool {
    match o.value {
        Some(v) => (o.name@ == "add"@ || o.name@ == "remove"@) ==> unescaped(v@) is Some,
        None => true,
    }
}

/// Every option whose value is looked up unquotes.
pub open spec fn options_unquote(options: Seq<CommandOption>) -> bool {
    forall|i: int| 0 <= i < options.len() ==> option_unquotes(#[trigger] options[i])
}

/// One option carried out on the member's roles, the reply so far and the edits made:
/// `add` adds the picked game's role (if the member lacks it), `remove` removes it
/// (if the member has it); anything else leaves the roles and says the request was
/// not filled out correctly.
pub open spec fn games_step(
    games: Seq<Game>,
    st: (Seq<u64>, Seq<char>, Seq<RoleEdit>),
    opt: CommandOption,
) -> (Seq<u64>, Seq<char>, Seq<RoleEdit>) {
    let roles = st.0;
    let edits = st.2;
    match opt.value {
        None => (roles, invalid_text(), edits),
        Some(v) => if opt.name@ == "add"@ {
            match game_for(games, v@) {
                Some(i) => if roles.contains(games[i].role_id) {
                    (roles, "Added Role"@, edits)
                } else {
                    (roles.push(games[i].role_id), "Added Role"@, edits.push(RoleEdit::Add(games[i].role_id)))
                },
                None => (roles, invalid_text(), edits),
            }
        } else if opt.name@ == "remove"@ {
            match game_for(games, v@) {
                Some(i) => if roles.contains(games[i].role_id) {
                    (
                        without(roles, games[i].role_id),
                        "Removed Role"@,
                        edits.push(RoleEdit::Remove(games[i].role_id)),
                    )
                } else {
                    (roles, invalid_text(), edits)
                },
                None => (roles, invalid_text(), edits),
            }
        } else {
            (roles, invalid_text(), edits)
        },
    }
}

/// The options carried out in order, from the member's roles, an empty reply and no edits.
pub open spec fn games_run(games: Seq<Game>, member_roles: Seq<u64>, options: Seq<CommandOption>) -> (Seq<u64>, Seq<char>, Seq<RoleEdit>)
    decreases options.len(),
{
    if options.len() == 0 {
        (member_roles, Seq::empty(), Seq::empty())
    } else {
        games_step(games, games_run(games, member_roles, options.drop_last()), options.last())
    }
}

/// `roles` without any copy of `id`.
fn remove_role(roles: &Vec<u64>, id: u64) -> (r: Vec<u64>)
    ensures
        r@ == without(roles@, id),
{
    let mut r: Vec<u64> = Vec::new();
    let mut i: usize = 0;
    assert(roles@.take(0) =~= Seq::<u64>::empty());
    while i < roles.len()
        invariant
            i <= roles.len(),
            r@ == without(roles@.take(i as int), id),
        decreases roles.len() - i,
    {
        assert(roles@.take(i + 1).drop_last() =~= roles@.take(i as int));
        assert(roles@.take(i + 1).last() == roles@[i as int]);
        if roles[i] != id {
            r.push(roles[i]);
        }
        i += 1;
    }
    assert(roles@.take(i as int) =~= roles@);
    r
}

impl Games {
    /// The reply to `/games` without options.
    pub fn no_options_passed() -> (r: HandlerResponse)
        ensures
            r.content@ == "No Response"@,
            r.components is None,
            r.ephemeral,
    {
        HandlerResponse::text(String::from_str("No Response"), true)
    }

    /// Carries out the options of `/games` for a member: the ephemeral reply of the
    /// last option, and the role edits to make, in order.
    pub fn add_or_remove_game(games: &Vec<Game>, member_roles: &Vec<u64>, options: &Vec<CommandOption>) -> (r: (HandlerResponse, Vec<RoleEdit>))
        requires
            options_unquote(options@),
        ensures
            r.0.content@ == games_run(games@, member_roles@, options@).1,
            r.0.components is None,
            r.0.ephemeral,
            r.1@ == games_run(games@, member_roles@, options@).2,
    {
        let mut roles: Vec<u64> = Vec::new();
        let mut k: usize = 0;
        while k < member_roles.len()
            invariant
                k <= member_roles.len(),
                roles@ == member_roles@.take(k as int),
            decreases member_roles.len() - k,
        {
            roles.push(member_roles[k]);
            assert(roles@ =~= member_roles@.take(k + 1));
            k += 1;
        }
        assert(member_roles@.take(k as int) =~= member_roles@);
        let mut content: Vec<char> = Vec::new();
        let mut edits: Vec<RoleEdit> = Vec::new();
        let invalid = chars_of("You didnt fill out the request correctly");
        let add = chars_of("add");
        let remove = chars_of("remove");
        let mut i: usize = 0;
        assert(options@.take(0) =~= Seq::<CommandOption>::empty());
        while i < options.len()
            invariant
                i <= options.len(),
                options_unquote(options@),
                invalid@ == invalid_text(),
                add@ == "add"@,
                remove@ == "remove"@,
                (roles@, content@, edits@) == games_run(games@, member_roles@, options@.take(i as int)),
            decreases options.len() - i,
        {
            assert(options@.take(i + 1).drop_last() =~= options@.take(i as int));
            assert(options@.take(i + 1).last() == options@[i as int]);
            let opt = &options[i];
            match &opt.value {
                None => {
                    content = chars_of("You didnt fill out the request correctly");
                },
                Some(v) => {
                    let name = chars_of(opt.name.as_str());
                    if seq_eq(&name, &add) {
                        assert(unescaped(v@) is Some);
                        match Games::find_game_from_role_name(games, v.as_str()) {
                            Some(g) => {
                                if !holds_id(&roles, g.role_id) {
                                    roles.push(g.role_id);
                                    edits.push(RoleEdit::Add(g.role_id));
                                }
                                content = chars_of("Added Role");
                            },
                            None => {
                                content = chars_of("You didnt fill out the request correctly");
                            },
                        }
                    } else if seq_eq(&name, &remove) {
                        assert(unescaped(v@) is Some);
                        match Games::find_game_from_role_name(games, v.as_str()) {
                            Some(g) => {
                                if holds_id(&roles, g.role_id) {
                                    roles = remove_role(&roles, g.role_id);
                                    edits.push(RoleEdit::Remove(g.role_id));
                                    content = chars_of("Removed Role");
                                } else {
                                    content = chars_of("You didnt fill out the request correctly");
                                }
                            },
                            None => {
                                content = chars_of("You didnt fill out the request correctly");
                            },
                        }
                    } else {
                        content = chars_of("You didnt fill out the request correctly");
                    }
                },
            }
            i += 1;
        }
        assert(options@.take(i as int) =~= options@);
        (HandlerResponse::text(string_of(&content), true), edits)
    }

    /// Carries out the options of `/games`, or `None` when the value of an `add` or
    /// `remove` option does not unquote.
    pub fn try_add_or_remove_game(games: &Vec<Game>, member_roles: &Vec<u64>, options: &Vec<CommandOption>) -> (r: Option<(HandlerResponse, Vec<RoleEdit>)>)
        ensures
            !options_unquote(options@) ==> r is None,
            options_unquote(options@) ==> (r matches Some(x) && x.0.content@ == games_run(
                games@,
                member_roles@,
                options@,
            ).1 && x.0.ephemeral && x.1@ == games_run(games@, member_roles@, options@).2),
    {
        let add = chars_of("add");
        let remove = chars_of("remove");
        let mut i: usize = 0;
        while i < options.len()
            invariant
                i <= options.len(),
                add@ == "add"@,
                remove@ == "remove"@,
                forall|j: int| 0 <= j < i ==> option_unquotes(#[trigger] options@[j]),
            decreases options.len() - i,
        {
            if let Some(v) = &options[i].value {
                let name = chars_of(options[i].name.as_str());
                if seq_eq(&name, &add) || seq_eq(&name, &remove) {
                    if unescape(v.as_str()).is_none() {
                        assert(!option_unquotes(options@[i as int]));
                        return None;
                    }
                }
            }
            i += 1;
        }
        Some(Games::add_or_remove_game(games, member_roles, options))
    }
}

/// No copy of `id` is left once it is taken out.
proof fn lemma_without_drops(roles: Seq<u64>, id: u64)
    ensures
        !without(roles, id).contains(id),
    decreases roles.len(),
{
    if roles.len() > 0 {
        lemma_without_drops(roles.drop_last(), id);
        let w = without(roles.drop_last(), id);
        if roles.last() != id {
            assert forall|k: int| 0 <= k < w.push(roles.last()).len() implies w.push(roles.last())[k] != id by {
                if k < w.len() {
                    assert(w.push(roles.last())[k] == w[k]);
                }
            }
        }
    }
}

/// Removing a role the list does not hold leaves it as it was.
proof fn lemma_without_absent(roles: Seq<u64>, id: u64)
    requires
        !roles.contains(id),
    ensures
        without(roles, id) == roles,
    decreases roles.len(),
{
    if roles.len() > 0 {
        assert(!roles.drop_last().contains(id)) by {
            if roles.drop_last().contains(id) {
                let k = choose|k: int| 0 <= k < roles.drop_last().len() && roles.drop_last()[k] == id;
                assert(roles[k] == id);
            }
        }
        lemma_without_absent(roles.drop_last(), id);
        assert(roles.drop_last().push(roles.last()) =~= roles);
    }
}

/// Adding a game and removing it again gives the member back the roles they had,
/// with one edit each way.
pub proof fn lemma_add_then_remove(games: Seq<Game>, roles: Seq<u64>, add: CommandOption, remove: CommandOption)
    requires
        add.name@ == "add"@,
        remove.name@ == "remove"@,
        add.value matches Some(a) && remove.value matches Some(b) && a@ == b@ && game_for(games, a@) is Some
            && !roles.contains(games[game_for(games, a@)->0].role_id),
    ensures
        games_run(games, roles, seq![add, remove]).0 == roles,
        games_run(games, roles, seq![add, remove]).1 == "Removed Role"@,
        games_run(games, roles, seq![add, remove]).2 == seq![
            RoleEdit::Add(games[game_for(games, add.value->0@)->0].role_id),
            RoleEdit::Remove(games[game_for(games, add.value->0@)->0].role_id),
        ],
{
    reveal_strlit("add");
    reveal_strlit("remove");
    assert("add"@.len() == 3);
    assert("remove"@.len() == 6);
    let ops = seq![add, remove];
    let a = add.value->0;
    let i = game_for(games, a@)->0;
    let id = games[i].role_id;
    assert(ops.drop_last() =~= seq![add]);
    assert(seq![add].drop_last() =~= Seq::<CommandOption>::empty());
    assert(add.name@ != "remove"@);
    assert(seq![add].last() == add);
    assert(ops.last() == remove);
    assert(games_run(games, roles, Seq::<CommandOption>::empty()) == (roles, Seq::<char>::empty(), Seq::<RoleEdit>::empty()));
    let after_add = games_run(games, roles, seq![add]);
    assert(after_add == (roles.push(id), "Added Role"@, Seq::<RoleEdit>::empty().push(RoleEdit::Add(id))));
    assert(remove.name@ != "add"@);
    assert(roles.push(id).contains(id)) by {
        assert(roles.push(id)[roles.len() as int] == id);
    }
    assert(roles.push(id).drop_last() =~= roles);
    lemma_without_absent(roles, id);
    assert(seq![RoleEdit::Add(id)].push(RoleEdit::Remove(id)) =~= seq![RoleEdit::Add(id), RoleEdit::Remove(id)]);
}

/// Adding a known game always succeeds, whatever roles the member holds and
/// whatever came before: the reply is "Added Role", the member then holds the game's
/// role, and a new edit is made only when the member lacked it.
pub proof fn lemma_add_known_game(games: Seq<Game>, roles: Seq<u64>, before: Seq<CommandOption>, add: CommandOption)
    requires
        add.name@ == "add"@,
        add.value matches Some(v) && game_for(games, v@) is Some,
    ensures
        ({
            let prior = games_run(games, roles, before);
            let after = games_run(games, roles, before.push(add));
            let id = games[game_for(games, add.value->0@)->0].role_id;
            &&& after.1 == "Added Role"@
            &&& after.0.contains(id)
            &&& prior.0.contains(id) ==> after.2 == prior.2
            &&& !prior.0.contains(id) ==> after.2 == prior.2.push(RoleEdit::Add(id))
        }),
{
    let ops = before.push(add);
    assert(ops.drop_last() =~= before);
    assert(ops.last() == add);
    let prior = games_run(games, roles, before);
    let id = games[game_for(games, add.value->0@)->0].role_id;
    if !prior.0.contains(id) {
        assert(prior.0.push(id)[prior.0.len() as int] == id);
    }
}

/// Removing a known game the member holds always succeeds: the reply is "Removed
/// Role", the member no longer holds the game's role, and the removal is recorded.
pub proof fn lemma_remove_held_game(games: Seq<Game>, roles: Seq<u64>, before: Seq<CommandOption>, remove: CommandOption)
    requires
        remove.name@ == "remove"@,
        remove.value matches Some(v) && game_for(games, v@) is Some,
        games_run(games, roles, before).0.contains(games[game_for(games, remove.value->0@)->0].role_id),
    ensures
        ({
            let prior = games_run(games, roles, before);
            let after = games_run(games, roles, before.push(remove));
            let id = games[game_for(games, remove.value->0@)->0].role_id;
            &&& after.1 == "Removed Role"@
            &&& !after.0.contains(id)
            &&& after.2 == prior.2.push(RoleEdit::Remove(id))
        }),
{
    reveal_strlit("add");
    reveal_strlit("remove");
    assert("add"@.len() == 3);
    assert("remove"@.len() == 6);
    assert(remove.name@ != "add"@);
    let ops = before.push(remove);
    assert(ops.drop_last() =~= before);
    assert(ops.last() == remove);
    let prior = games_run(games, roles, before);
    let id = games[game_for(games, remove.value->0@)->0].role_id;
    lemma_without_drops(prior.0, id);
}

} // verus!
