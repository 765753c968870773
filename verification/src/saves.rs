//! The save-header data model and its decoder.
//!
//! A header is decoded in one forward-only pass with a fixed field order.
//! The declared version is read first, classified into an era, and that
//! era's rules are bound for every remaining field.  The decoder returns a
//! complete header or a typed error, never a partial header.

use vstd::prelude::*;

use crate::error::{DecodeError, Field};
use crate::reader::{
    read_allow_non_admin_debug_options, read_bool, read_build, read_len, read_loaded_from,
    read_quality_version, read_string, read_triple, read_u16, read_u32, read_u8, spec_read_bool,
    spec_read_build, spec_read_debug_options, spec_read_len, spec_read_quality_version,
    spec_read_string, spec_read_triple, spec_read_u16, spec_read_u32, spec_read_u8,
};
use crate::versions::{bound_rules, spec_bound_rules, EraRules, RuntimeVersion};

verus! {

/// The game difficulty recorded in the header, one byte in range 0 to 3.
#[derive(Clone, Copy, Debug, PartialEq, Eq, Structural)]
pub enum Difficulty {
    Easy,
    Normal,
    Hard,
    Nothing,
}

/// The difficulty that a header byte denotes; any byte above 3 is a
/// decode error naming the field and the byte.
pub open spec fn spec_difficulty(b: u8) -> Result<Difficulty, DecodeError> {
    if b == 0 {
        Ok(Difficulty::Easy)
    } else if b == 1 {
        Ok(Difficulty::Normal)
    } else if b == 2 {
        Ok(Difficulty::Hard)
    } else if b == 3 {
        Ok(Difficulty::Nothing)
    } else {
        Err(DecodeError::InvalidByte(Field::Difficulty, b))
    }
}

impl Difficulty {
    /// Map a header byte to a difficulty; bytes above 3 are a decode
    /// error, never a crash.
    pub fn from_byte(b: u8) -> (r: Result<Difficulty, DecodeError>)
        ensures
            r == spec_difficulty(b),
    {
        match b {
            0 => Ok(Difficulty::Easy),
            1 => Ok(Difficulty::Normal),
            2 => Ok(Difficulty::Hard),
            3 => Ok(Difficulty::Nothing),
            _ => Err(DecodeError::InvalidByte(Field::Difficulty, b)),
        }
    }
}

/// Whether console commands were allowed in the saved game.
#[derive(Clone, Copy, Debug, PartialEq, Eq, Structural)]
pub enum AllowedCommands {
    True,
    False,
    AdminsOnly,
}

/// The allowed-commands value that a header byte denotes: 1, 2 and 3 mean
/// allowed, refused and admins-only; any other byte is a decode error
/// naming the field and the byte.
pub open spec fn spec_allowed_commands(b: u8) -> Result<AllowedCommands, DecodeError> {
    if b == 1 {
        Ok(AllowedCommands::True)
    } else if b == 2 {
        Ok(AllowedCommands::False)
    } else if b == 3 {
        Ok(AllowedCommands::AdminsOnly)
    } else {
        Err(DecodeError::InvalidByte(Field::AllowedCommands, b))
    }
}

impl AllowedCommands {
    /// Map a header byte to an allowed-commands value; out-of-range bytes
    /// are a decode error, never a crash.
    pub fn from_byte(b: u8) -> (r: Result<AllowedCommands, DecodeError>)
        ensures
            r == spec_allowed_commands(b),
    {
        match b {
            1 => Ok(AllowedCommands::True),
            2 => Ok(AllowedCommands::False),
            3 => Ok(AllowedCommands::AdminsOnly),
            _ => Err(DecodeError::InvalidByte(Field::AllowedCommands, b)),
        }
    }
}

/// The four-component version value read first from every stream, ordered
/// lexicographically by component (the derived order, by field order).
/// It doubles as a header field and as the era-classification key.
#[derive(Clone, Copy, Debug, PartialEq, Eq, Structural, PartialOrd, Ord)]
pub struct FactorioVersion {
    pub major: u16,
    pub minor: u16,
    pub patch: u16,
    pub build: u16,
}

/// One mod entry of the header: name, version triple, and a checksum in
/// the eras that record one.
#[derive(Debug, PartialEq)]
pub struct Mod {
    pub name: String,
    pub version: [u16; 3],
    pub crc: Option<u32>,
}

/// The mathematical value of one decoded mod entry.
pub ghost struct ModV {
    pub name: Seq<char>,
    pub version: (u16, u16, u16),
    pub crc: Option<u32>,
}

impl View for Mod {
    type V = ModV;

    open spec fn view(&self) -> ModV {
        ModV {
            name: self.name@,
            version: (self.version[0], self.version[1], self.version[2]),
            crc: self.crc,
        }
    }
}

/// What reading one mod entry yields: a name under the era's mod-name
/// rule, a version triple under the era's integer encoding, and, in the
/// eras that record one, a 32-bit checksum.
#[verifier::opaque]
pub open spec fn spec_read_mod(rules: EraRules, s: Seq<u8>, pos: int) -> Result<
    (ModV, int),
    DecodeError,
> {
    match spec_read_string(rules.mod_name_optimized, s, pos, Field::ModName) {
        Ok((name, p1)) => match spec_read_triple(rules.triple_optimized, s, p1, Field::ModVersion) {
            Ok((version, p2)) => if rules.mod_crc {
                match spec_read_u32(s, p2, Field::ModCrc) {
                    Ok((c, p3)) => Ok((ModV { name, version, crc: Some(c) }, p3)),
                    Err(e) => Err(e),
                }
            } else {
                Ok((ModV { name, version, crc: None }, p2))
            },
            Err(e) => Err(e),
        },
        Err(e) => Err(e),
    }
}

impl Mod {
    /// Decode one mod entry under the active era's rules.
    pub fn read(rules: &EraRules, data: &[u8], pos: usize) -> (r: Result<(Mod, usize), DecodeError>)
        ensures
            (match r {
                Ok((m, p)) => (spec_read_mod(*rules, data@, pos as int) matches Ok(q) && q.0 == m@
                    && q.1 == p as int),
                Err(e) => spec_read_mod(*rules, data@, pos as int) == Err::<
                    (ModV, int),
                    DecodeError,
                >(e),
            }),
    {
        proof {
            reveal(spec_read_mod);
        }
        let (name, p1) = match read_string(rules.mod_name_optimized, data, pos, Field::ModName) {
            Ok(x) => x,
            Err(e) => {
                return Err(e);
            },
        };
        let (version, p2) = match read_triple(rules.triple_optimized, data, p1, Field::ModVersion) {
            Ok(x) => x,
            Err(e) => {
                return Err(e);
            },
        };
        if rules.mod_crc {
            match read_u32(data, p2, Field::ModCrc) {
                Ok((c, p3)) => Ok(
                    (
                        Mod {
                            name,
                            version: [version.0, version.1, version.2],
                            crc: Some(c),
                        },
                        p3,
                    ),
                ),
                Err(e) => Err(e),
            }
        } else {
            Ok((Mod { name, version: [version.0, version.1, version.2], crc: None }, p2))
        }
    }
}

/// The mathematical values of a sequence of decoded mods, in the same
/// order.
pub open spec fn mods_view(ms: Seq<Mod>) -> Seq<ModV> {
    ms.map_values(|m: Mod| m@)
}

/// What reading `n` consecutive mod entries from `pos` yields: the decoded
/// entries exactly in the order they stand in the stream.
#[verifier::opaque]
pub open spec fn spec_read_mods(rules: EraRules, s: Seq<u8>, pos: int, n: nat) -> Result<
    (Seq<ModV>, int),
    DecodeError,
>
    decreases n,
{
    if n == 0 {
        Ok((Seq::empty(), pos))
    } else {
        match spec_read_mod(rules, s, pos) {
            Ok((m, p1)) => match spec_read_mods(rules, s, p1, (n - 1) as nat) {
                Ok((ms, p2)) => Ok((seq![m] + ms, p2)),
                Err(e) => Err(e),
            },
            Err(e) => Err(e),
        }
    }
}

/// What reading the mod list yields: a count under the era's array-length
/// rule, then that many mod entries in on-disk order.
pub open spec fn spec_read_mod_array(rules: EraRules, s: Seq<u8>, pos: int) -> Result<
    (Seq<ModV>, int),
    DecodeError,
> {
    match spec_read_len(rules.string_optimized, s, pos, Field::ModCount) {
        Ok((n, p)) => spec_read_mods(rules, s, p, n as nat),
        Err(e) => Err(e),
    }
}

/// Law: decoded mods keep on-disk order, with no sorting and no
/// deduplication.  The first decoded entry is the record at the head of
/// the list, and the entries after it are the following records, decoded
/// from where the first record ends.
pub proof fn lemma_mods_on_disk_order(rules: EraRules, s: Seq<u8>, pos: int, n: nat)
    requires
        n > 0,
        spec_read_mods(rules, s, pos, n) is Ok,
    ensures
        spec_read_mod(rules, s, pos) is Ok,
        (spec_read_mod(rules, s, pos) matches Ok((m, p1)) ==> {
            &&& spec_read_mods(rules, s, p1, (n - 1) as nat) matches Ok((ms, p2))
            &&& spec_read_mods(rules, s, pos, n) == Ok::<(Seq<ModV>, int), DecodeError>(
                (seq![m] + ms, p2),
            )
            &&& (seq![m] + ms)[0] == m
            &&& (seq![m] + ms).len() == n
        }),
{
    reveal(spec_read_mods);
    match spec_read_mod(rules, s, pos) {
        Ok((m, p1)) => {
            lemma_mods_len(rules, s, p1, (n - 1) as nat);
        },
        Err(e) => {},
    }
}

/// A successful read of `n` mod entries yields exactly `n` of them.
pub proof fn lemma_mods_len(rules: EraRules, s: Seq<u8>, pos: int, n: nat)
    requires
        spec_read_mods(rules, s, pos, n) is Ok,
    ensures
        (spec_read_mods(rules, s, pos, n) matches Ok((ms, p)) ==> ms.len() == n),
    decreases n,
{
    reveal(spec_read_mods);
    if n > 0 {
        match spec_read_mod(rules, s, pos) {
            Ok((m, p1)) => {
                lemma_mods_len(rules, s, p1, (n - 1) as nat);
            },
            Err(e) => {},
        }
    }
}

/// One unfolding of `spec_read_mods` after a successful entry read.
proof fn lemma_mods_step(rules: EraRules, s: Seq<u8>, cur: int, k: nat, m: ModV, p2: int)
    requires
        k > 0,
        spec_read_mod(rules, s, cur) == Ok::<(ModV, int), DecodeError>((m, p2)),
    ensures
        spec_read_mods(rules, s, cur, k) == (match spec_read_mods(rules, s, p2, (k - 1) as nat) {
            Ok((rest, end)) => Ok::<(Seq<ModV>, int), DecodeError>((seq![m] + rest, end)),
            Err(e) => Err::<(Seq<ModV>, int), DecodeError>(e),
        }),
{
    reveal(spec_read_mods);
}

/// One unfolding of `spec_read_mods` after a failed entry read.
proof fn lemma_mods_step_err(rules: EraRules, s: Seq<u8>, cur: int, k: nat, e: DecodeError)
    requires
        k > 0,
        spec_read_mod(rules, s, cur) == Err::<(ModV, int), DecodeError>(e),
    ensures
        spec_read_mods(rules, s, cur, k) == Err::<(Seq<ModV>, int), DecodeError>(e),
{
    reveal(spec_read_mods);
}

/// Appending one decoded entry to the views of those already decoded.
proof fn lemma_mods_view_push(done: Seq<Mod>, m: Mod, rest: Seq<ModV>)
    ensures
        mods_view(done) + (seq![m@] + rest) == mods_view(done.push(m)) + rest,
{
    assert(mods_view(done) + (seq![m@] + rest) =~= mods_view(done.push(m)) + rest);
}

/// Decode the mod list: a count under the era's array-length rule, then
/// that many mod entries, preserving on-disk order.
pub fn read_array(rules: &EraRules, data: &[u8], pos: usize) -> (r: Result<
    (Vec<Mod>, usize),
    DecodeError,
>)
    ensures
        (match r {
            Ok((mods, p)) => (spec_read_mod_array(*rules, data@, pos as int) matches Ok(q) && q.0
                == mods_view(mods@) && q.1 == p as int),
            Err(e) => spec_read_mod_array(*rules, data@, pos as int) == Err::<
                (Seq<ModV>, int),
                DecodeError,
            >(e),
        }),
{
    let (n, start) = match read_len(rules.string_optimized, data, pos, Field::ModCount) {
        Ok(x) => x,
        Err(e) => {
            return Err(e);
        },
    };
    let count: usize = n as usize;
    let mut mods: Vec<Mod> = Vec::new();
    let mut cur: usize = start;
    let mut i: usize = 0;
    proof {
        reveal(spec_read_mods);
        assert(mods_view(mods@) =~= Seq::<ModV>::empty());
        match spec_read_mods(*rules, data@, start as int, count as nat) {
            Ok((rest, end)) => {
                assert(mods_view(mods@) + rest =~= rest);
            },
            Err(e) => {},
        }
    }
    while i < count
        invariant
            i <= count,
            spec_read_len(rules.string_optimized, data@, pos as int, Field::ModCount) == Ok::<
                (u32, int),
                DecodeError,
            >((n, start as int)),
            count == n as usize,
            (spec_read_mods(*rules, data@, start as int, count as nat) == (
            match spec_read_mods(*rules, data@, cur as int, (count - i) as nat) {
                Ok((rest, end)) => Ok::<(Seq<ModV>, int), DecodeError>(
                    (mods_view(mods@) + rest, end),
                ),
                Err(e) => Err::<(Seq<ModV>, int), DecodeError>(e),
            })),
        decreases count - i,
    {
        let ghost k = (count - i) as nat;
        match Mod::read(rules, data, cur) {
            Ok((m, p2)) => {
                proof {
                    lemma_mods_step(*rules, data@, cur as int, k, m@, p2 as int);
                    match spec_read_mods(*rules, data@, p2 as int, (k - 1) as nat) {
                        Ok((rest2, end2)) => {
                            lemma_mods_view_push(mods@, m, rest2);
                        },
                        Err(e) => {},
                    }
                }
                mods.push(m);
                cur = p2;
            },
            Err(e) => {
                proof {
                    lemma_mods_step_err(*rules, data@, cur as int, k, e);
                }
                return Err(e);
            },
        }
        i = i + 1;
    }
    proof {
        reveal(spec_read_mods);
        assert(mods_view(mods@) + Seq::<ModV>::empty() =~= mods_view(mods@));
    }
    Ok((mods, cur))
}

/// The complete decoded header of a save.
#[derive(Debug, PartialEq)]
pub struct SaveHeader {
    pub factorio_version: FactorioVersion,
    pub quality_version: Option<u8>,
    pub campaign_name: String,
    pub level_name: String,
    pub base_mod_name: String,
    pub difficulty: Difficulty,
    pub finished: bool,
    pub player_won: bool,
    pub next_level: String,
    pub can_continue: bool,
    pub finished_but_continuing: bool,
    pub saving_replay: bool,
    pub allow_non_admin_debug_options: Option<bool>,
    pub loaded_from: [u16; 3],
    pub loaded_from_build: u32,
    pub allowed_commands: AllowedCommands,
    pub large_blueprint_size: Option<u32>,
    pub mods: Vec<Mod>,
}

/// The mathematical value of a decoded header.
pub ghost struct HeaderV {
    pub factorio_version: FactorioVersion,
    pub quality_version: Option<u8>,
    pub campaign_name: Seq<char>,
    pub level_name: Seq<char>,
    pub base_mod_name: Seq<char>,
    pub difficulty: Difficulty,
    pub finished: bool,
    pub player_won: bool,
    pub next_level: Seq<char>,
    pub can_continue: bool,
    pub finished_but_continuing: bool,
    pub saving_replay: bool,
    pub allow_non_admin_debug_options: Option<bool>,
    pub loaded_from: (u16, u16, u16),
    pub loaded_from_build: u32,
    pub allowed_commands: AllowedCommands,
    pub large_blueprint_size: Option<u32>,
    pub mods: Seq<ModV>,
}

impl View for SaveHeader {
    type V = HeaderV;

    open spec fn view(&self) -> HeaderV {
        HeaderV {
            factorio_version: self.factorio_version,
            quality_version: self.quality_version,
            campaign_name: self.campaign_name@,
            level_name: self.level_name@,
            base_mod_name: self.base_mod_name@,
            difficulty: self.difficulty,
            finished: self.finished,
            player_won: self.player_won,
            next_level: self.next_level@,
            can_continue: self.can_continue,
            finished_but_continuing: self.finished_but_continuing,
            saving_replay: self.saving_replay,
            allow_non_admin_debug_options: self.allow_non_admin_debug_options,
            loaded_from: (self.loaded_from[0], self.loaded_from[1], self.loaded_from[2]),
            loaded_from_build: self.loaded_from_build,
            allowed_commands: self.allowed_commands,
            large_blueprint_size: self.large_blueprint_size,
            mods: mods_view(self.mods@),
        }
    }
}

/// What reading the declared version yields: four fixed 16-bit reads.
pub open spec fn spec_read_version(s: Seq<u8>, pos: int) -> Result<
    (FactorioVersion, int),
    DecodeError,
> {
    match spec_read_u16(s, pos, Field::Version) {
        Ok((major, p1)) => match spec_read_u16(s, p1, Field::Version) {
            Ok((minor, p2)) => match spec_read_u16(s, p2, Field::Version) {
                Ok((patch, p3)) => match spec_read_u16(s, p3, Field::Version) {
                    Ok((build, p4)) => Ok((FactorioVersion { major, minor, patch, build }, p4)),
                    Err(e) => Err(e),
                },
                Err(e) => Err(e),
            },
            Err(e) => Err(e),
        },
        Err(e) => Err(e),
    }
}

/// Read the declared version: four fixed 16-bit reads.
pub fn read_version(data: &[u8], pos: usize) -> (r: Result<(FactorioVersion, usize), DecodeError>)
    ensures
        (match r {
            Ok((v, p)) => spec_read_version(data@, pos as int) == Ok::<
                (FactorioVersion, int),
                DecodeError,
            >((v, p as int)),
            Err(e) => spec_read_version(data@, pos as int) == Err::<
                (FactorioVersion, int),
                DecodeError,
            >(e),
        }),
{
    let (major, p1) = match read_u16(data, pos, Field::Version) {
        Ok(x) => x,
        Err(e) => {
            return Err(e);
        },
    };
    let (minor, p2) = match read_u16(data, p1, Field::Version) {
        Ok(x) => x,
        Err(e) => {
            return Err(e);
        },
    };
    let (patch, p3) = match read_u16(data, p2, Field::Version) {
        Ok(x) => x,
        Err(e) => {
            return Err(e);
        },
    };
    let (build, p4) = match read_u16(data, p3, Field::Version) {
        Ok(x) => x,
        Err(e) => {
            return Err(e);
        },
    };
    Ok((FactorioVersion { major, minor, patch, build }, p4))
}

/// What reading the difficulty byte yields.
pub open spec fn spec_read_difficulty(s: Seq<u8>, pos: int) -> Result<
    (Difficulty, int),
    DecodeError,
> {
    match spec_read_u8(s, pos, Field::Difficulty) {
        Ok((b, p)) => match spec_difficulty(b) {
            Ok(d) => Ok((d, p)),
            Err(e) => Err(e),
        },
        Err(e) => Err(e),
    }
}

/// Read the difficulty byte.
pub fn read_difficulty(data: &[u8], pos: usize) -> (r: Result<(Difficulty, usize), DecodeError>)
    ensures
        (match r {
            Ok((d, p)) => spec_read_difficulty(data@, pos as int) == Ok::<
                (Difficulty, int),
                DecodeError,
            >((d, p as int)),
            Err(e) => spec_read_difficulty(data@, pos as int) == Err::<
                (Difficulty, int),
                DecodeError,
            >(e),
        }),
{
    match read_u8(data, pos, Field::Difficulty) {
        Ok((b, p)) => match Difficulty::from_byte(b) {
            Ok(d) => Ok((d, p)),
            Err(e) => Err(e),
        },
        Err(e) => Err(e),
    }
}

/// What reading the allowed-commands byte yields.
pub open spec fn spec_read_allowed_commands(s: Seq<u8>, pos: int) -> Result<
    (AllowedCommands, int),
    DecodeError,
> {
    match spec_read_u8(s, pos, Field::AllowedCommands) {
        Ok((b, p)) => match spec_allowed_commands(b) {
            Ok(a) => Ok((a, p)),
            Err(e) => Err(e),
        },
        Err(e) => Err(e),
    }
}

/// Read the allowed-commands byte.
pub fn read_allowed_commands(data: &[u8], pos: usize) -> (r: Result<
    (AllowedCommands, usize),
    DecodeError,
>)
    ensures
        (match r {
            Ok((a, p)) => spec_read_allowed_commands(data@, pos as int) == Ok::<
                (AllowedCommands, int),
                DecodeError,
            >((a, p as int)),
            Err(e) => spec_read_allowed_commands(data@, pos as int) == Err::<
                (AllowedCommands, int),
                DecodeError,
            >(e),
        }),
{
    match read_u8(data, pos, Field::AllowedCommands) {
        Ok((b, p)) => match AllowedCommands::from_byte(b) {
            Ok(a) => Ok((a, p)),
            Err(e) => Err(e),
        },
        Err(e) => Err(e),
    }
}

/// What reading the optional large-blueprint-size field yields: absent
/// eras consume no bytes.
pub open spec fn spec_read_large_blueprint(present: bool, s: Seq<u8>, pos: int) -> Result<
    (Option<u32>, int),
    DecodeError,
> {
    if present {
        match spec_read_u32(s, pos, Field::LargeBlueprintSize) {
            Ok((v, p)) => Ok((Some(v), p)),
            Err(e) => Err(e),
        }
    } else {
        Ok((None, pos))
    }
}

/// Read the large-blueprint-size field when the resolved era enables it;
/// otherwise consume no bytes and yield no value.
pub fn read_large_blueprint_size(present: bool, data: &[u8], pos: usize) -> (r: Result<
    (Option<u32>, usize),
    DecodeError,
>)
    ensures
        (match r {
            Ok((v, p)) => spec_read_large_blueprint(present, data@, pos as int) == Ok::<
                (Option<u32>, int),
                DecodeError,
            >((v, p as int)),
            Err(e) => spec_read_large_blueprint(present, data@, pos as int) == Err::<
                (Option<u32>, int),
                DecodeError,
            >(e),
        }),
{
    if present {
        match read_u32(data, pos, Field::LargeBlueprintSize) {
            Ok((v, p)) => Ok((Some(v), p)),
            Err(e) => Err(e),
        }
    } else {
        Ok((None, pos))
    }
}

/// What decoding a whole header from `pos` yields: the declared version,
/// its era's rules bound once, and every following field decoded in the
/// fixed order under those rules.
pub open spec fn spec_read_header(s: Seq<u8>, pos: int) -> Result<(HeaderV, int), DecodeError> {
    match spec_read_version(s, pos) {
        Ok((v, p0)) => match crate::versions::spec_classify(v.major, v.minor, v.patch) {
            Ok(era) => {
                let rules = spec_bound_rules(era, v.major);
                match spec_read_quality_version(rules.quality_version, s, p0) {
                    Ok((quality_version, p1)) => match spec_read_string(
                        rules.string_optimized,
                        s,
                        p1,
                        Field::CampaignName,
                    ) {
                        Ok((campaign_name, p2)) => match spec_read_string(
                            rules.string_optimized,
                            s,
                            p2,
                            Field::LevelName,
                        ) {
                            Ok((level_name, p3)) => match spec_read_string(
                                rules.string_optimized,
                                s,
                                p3,
                                Field::BaseModName,
                            ) {
                                Ok((base_mod_name, p4)) => match spec_read_difficulty(s, p4) {
                                    Ok((difficulty, p5)) => match spec_read_bool(
                                        s,
                                        p5,
                                        Field::Finished,
                                    ) {
                                        Ok((finished, p6)) => match spec_read_bool(
                                            s,
                                            p6,
                                            Field::PlayerWon,
                                        ) {
                                            Ok((player_won, p7)) => match spec_read_string(
                                                rules.string_optimized,
                                                s,
                                                p7,
                                                Field::NextLevel,
                                            ) {
                                                Ok((next_level, p8)) => match spec_read_bool(
                                                    s,
                                                    p8,
                                                    Field::CanContinue,
                                                ) {
                                                    Ok((can_continue, p9)) => match spec_read_bool(
                                                        s,
                                                        p9,
                                                        Field::FinishedButContinuing,
                                                    ) {
                                                        Ok(
                                                            (finished_but_continuing, p10),
                                                        ) => match spec_read_bool(
                                                            s,
                                                            p10,
                                                            Field::SavingReplay,
                                                        ) {
                                                            Ok(
                                                                (saving_replay, p11),
                                                            ) => match spec_read_debug_options(
                                                                rules.debug_options,
                                                                s,
                                                                p11,
                                                            ) {
                                                                Ok(
                                                                    (debug_options, p12),
                                                                ) => match spec_read_triple(
                                                                    rules.triple_optimized,
                                                                    s,
                                                                    p12,
                                                                    Field::LoadedFrom,
                                                                ) {
                                                                    Ok(
                                                                        (loaded_from, p13),
                                                                    ) => match spec_read_build(
                                                                        rules.build_optimized,
                                                                        s,
                                                                        p13,
                                                                    ) {
                                                                        Ok(
                                                                            (loaded_from_build, p14),
                                                                        ) => match spec_read_allowed_commands(
                                                                            s,
                                                                            p14,
                                                                        ) {
                                                                            Ok(
                                                                                (allowed_commands, p15),
                                                                            ) => match spec_read_large_blueprint(
                                                                                rules.large_blueprint,
                                                                                s,
                                                                                p15,
                                                                            ) {
                                                                                Ok(
                                                                                    (large_blueprint_size, p16),
                                                                                ) => match spec_read_mod_array(
                                                                                    rules,
                                                                                    s,
                                                                                    p16,
                                                                                ) {
                                                                                    Ok(
                                                                                        (mods, p17),
                                                                                    ) => Ok(
                                                                                        (
                                                                                            HeaderV {
                                                                                                factorio_version: v,
                                                                                                quality_version,
                                                                                                campaign_name,
                                                                                                level_name,
                                                                                                base_mod_name,
                                                                                                difficulty,
                                                                                                finished,
                                                                                                player_won,
                                                                                                next_level,
                                                                                                can_continue,
                                                                                                finished_but_continuing,
                                                                                                saving_replay,
                                                                                                allow_non_admin_debug_options: debug_options,
                                                                                                loaded_from,
                                                                                                loaded_from_build,
                                                                                                allowed_commands,
                                                                                                large_blueprint_size,
                                                                                                mods,
                                                                                            },
                                                                                            p17,
                                                                                        ),
                                                                                    ),
                                                                                    Err(e) => Err(
                                                                                        e,
                                                                                    ),
                                                                                },
                                                                                Err(e) => Err(e),
                                                                            },
                                                                            Err(e) => Err(e),
                                                                        },
                                                                        Err(e) => Err(e),
                                                                    },
                                                                    Err(e) => Err(e),
                                                                },
                                                                Err(e) => Err(e),
                                                            },
                                                            Err(e) => Err(e),
                                                        },
                                                        Err(e) => Err(e),
                                                    },
                                                    Err(e) => Err(e),
                                                },
                                                Err(e) => Err(e),
                                            },
                                            Err(e) => Err(e),
                                        },
                                        Err(e) => Err(e),
                                    },
                                    Err(e) => Err(e),
                                },
                                Err(e) => Err(e),
                            },
                            Err(e) => Err(e),
                        },
                        Err(e) => Err(e),
                    },
                    Err(e) => Err(e),
                }
            },
            Err(e) => Err(e),
        },
        Err(e) => Err(e),
    }
}

/// What decoding a whole header from the start of the stream yields.
pub open spec fn spec_decode_header(s: Seq<u8>) -> Result<HeaderV, DecodeError> {
    match spec_read_header(s, 0) {
        Ok((h, p)) => Ok(h),
        Err(e) => Err(e),
    }
}

/// Decode a complete save header from the decompressed header payload:
/// the declared version, classified into its era, then every field in the
/// fixed order under that era's rules.  The result is exactly what
/// `spec_decode_header` says: a complete header, or the specific error of
/// the first field that could not be decoded.
#[verifier::rlimit(100)]
pub fn get_save_header(data: &[u8]) -> (r: Result<SaveHeader, DecodeError>)
    ensures
        (match r {
            Ok(h) => spec_decode_header(data@) == Ok::<HeaderV, DecodeError>(h@),
            Err(e) => spec_decode_header(data@) == Err::<HeaderV, DecodeError>(e),
        }),
{
    let (factorio_version, p0) = match read_version(data, 0) {
        Ok(x) => x,
        Err(e) => {
            return Err(e);
        },
    };
    let key: [u16; 3] = [factorio_version.major, factorio_version.minor, factorio_version.patch];
    let era = match RuntimeVersion::parse_version(&key) {
        Ok(x) => x,
        Err(e) => {
            return Err(e);
        },
    };
    let rules = bound_rules(era, factorio_version.major);
    let (quality_version, p1) = match read_quality_version(rules.quality_version, data, p0) {
        Ok(x) => x,
        Err(e) => {
            return Err(e);
        },
    };
    let (campaign_name, p2) = match read_string(
        rules.string_optimized,
        data,
        p1,
        Field::CampaignName,
    ) {
        Ok(x) => x,
        Err(e) => {
            return Err(e);
        },
    };
    let (level_name, p3) = match read_string(rules.string_optimized, data, p2, Field::LevelName) {
        Ok(x) => x,
        Err(e) => {
            return Err(e);
        },
    };
    let (base_mod_name, p4) = match read_string(
        rules.string_optimized,
        data,
        p3,
        Field::BaseModName,
    ) {
        Ok(x) => x,
        Err(e) => {
            return Err(e);
        },
    };
    let (difficulty, p5) = match read_difficulty(data, p4) {
        Ok(x) => x,
        Err(e) => {
            return Err(e);
        },
    };
    let (finished, p6) = match read_bool(data, p5, Field::Finished) {
        Ok(x) => x,
        Err(e) => {
            return Err(e);
        },
    };
    let (player_won, p7) = match read_bool(data, p6, Field::PlayerWon) {
        Ok(x) => x,
        Err(e) => {
            return Err(e);
        },
    };
    let (next_level, p8) = match read_string(rules.string_optimized, data, p7, Field::NextLevel) {
        Ok(x) => x,
        Err(e) => {
            return Err(e);
        },
    };
    let (can_continue, p9) = match read_bool(data, p8, Field::CanContinue) {
        Ok(x) => x,
        Err(e) => {
            return Err(e);
        },
    };
    let (finished_but_continuing, p10) = match read_bool(data, p9, Field::FinishedButContinuing) {
        Ok(x) => x,
        Err(e) => {
            return Err(e);
        },
    };
    let (saving_replay, p11) = match read_bool(data, p10, Field::SavingReplay) {
        Ok(x) => x,
        Err(e) => {
            return Err(e);
        },
    };
    let (allow_non_admin_debug_options, p12) = match read_allow_non_admin_debug_options(
        rules.debug_options,
        data,
        p11,
    ) {
        Ok(x) => x,
        Err(e) => {
            return Err(e);
        },
    };
    let (loaded_from, p13) = match read_loaded_from(rules.triple_optimized, data, p12) {
        Ok(x) => x,
        Err(e) => {
            return Err(e);
        },
    };
    let (loaded_from_build, p14) = match read_build(rules.build_optimized, data, p13) {
        Ok(x) => x,
        Err(e) => {
            return Err(e);
        },
    };
    let (allowed_commands, p15) = match read_allowed_commands(data, p14) {
        Ok(x) => x,
        Err(e) => {
            return Err(e);
        },
    };
    let (large_blueprint_size, p16) = match read_large_blueprint_size(
        rules.large_blueprint,
        data,
        p15,
    ) {
        Ok(x) => x,
        Err(e) => {
            return Err(e);
        },
    };
    let (mods, p17) = match read_array(&rules, data, p16) {
        Ok(x) => x,
        Err(e) => {
            return Err(e);
        },
    };
    Ok(
        SaveHeader {
            factorio_version,
            quality_version,
            campaign_name,
            level_name,
            base_mod_name,
            difficulty,
            finished,
            player_won,
            next_level,
            can_continue,
            finished_but_continuing,
            saving_replay,
            allow_non_admin_debug_options,
            loaded_from,
            loaded_from_build,
            allowed_commands,
            large_blueprint_size,
            mods,
        },
    )
}

/// Truncation behaviour of the difficulty read.
proof fn lemma_trunc_difficulty(s: Seq<u8>, j: int, pos: int)
    requires
        0 <= pos <= j <= s.len(),
        spec_read_difficulty(s, pos) is Ok,
    ensures
        (spec_read_difficulty(s, pos) matches Ok((v, p)) ==> {
            &&& pos < p <= s.len()
            &&& (p <= j ==> spec_read_difficulty(s.take(j), pos) == spec_read_difficulty(s, pos))
            &&& (p > j ==> spec_read_difficulty(s.take(j), pos) == Err::<
                (Difficulty, int),
                DecodeError,
            >(DecodeError::EndOfInput(Field::Difficulty)))
        }),
{
    crate::reader::lemma_trunc_u8(s, j, pos, Field::Difficulty);
}

/// Truncation behaviour of the allowed-commands read.
proof fn lemma_trunc_allowed_commands(s: Seq<u8>, j: int, pos: int)
    requires
        0 <= pos <= j <= s.len(),
        spec_read_allowed_commands(s, pos) is Ok,
    ensures
        (spec_read_allowed_commands(s, pos) matches Ok((v, p)) ==> {
            &&& pos < p <= s.len()
            &&& (p <= j ==> spec_read_allowed_commands(s.take(j), pos)
                == spec_read_allowed_commands(s, pos))
            &&& (p > j ==> spec_read_allowed_commands(s.take(j), pos) == Err::<
                (AllowedCommands, int),
                DecodeError,
            >(DecodeError::EndOfInput(Field::AllowedCommands)))
        }),
{
    crate::reader::lemma_trunc_u8(s, j, pos, Field::AllowedCommands);
}

/// Truncation behaviour of the optional large-blueprint-size read.
proof fn lemma_trunc_large_blueprint(present: bool, s: Seq<u8>, j: int, pos: int)
    requires
        0 <= pos <= j <= s.len(),
        spec_read_large_blueprint(present, s, pos) is Ok,
    ensures
        (spec_read_large_blueprint(present, s, pos) matches Ok((v, p)) ==> {
            &&& pos <= p <= s.len()
            &&& (p <= j ==> spec_read_large_blueprint(present, s.take(j), pos)
                == spec_read_large_blueprint(present, s, pos))
            &&& (p > j ==> spec_read_large_blueprint(present, s.take(j), pos) == Err::<
                (Option<u32>, int),
                DecodeError,
            >(DecodeError::EndOfInput(Field::LargeBlueprintSize)))
        }),
{
    if present {
        crate::reader::lemma_trunc_u32(s, j, pos, Field::LargeBlueprintSize);
    }
}

/// Truncation behaviour of the declared-version read.
proof fn lemma_trunc_version(s: Seq<u8>, j: int, pos: int)
    requires
        0 <= pos <= j <= s.len(),
        spec_read_version(s, pos) is Ok,
    ensures
        (spec_read_version(s, pos) matches Ok((v, p)) ==> {
            &&& pos < p <= s.len()
            &&& (p <= j ==> spec_read_version(s.take(j), pos) == spec_read_version(s, pos))
            &&& (p > j ==> spec_read_version(s.take(j), pos) == Err::<
                (FactorioVersion, int),
                DecodeError,
            >(DecodeError::EndOfInput(Field::Version)))
        }),
{
    match spec_read_u16(s, pos, Field::Version) {
        Ok((a, p1)) => {
            crate::reader::lemma_trunc_u16(s, j, pos, Field::Version);
            if p1 <= j {
                match spec_read_u16(s, p1, Field::Version) {
                    Ok((b, p2)) => {
                        crate::reader::lemma_trunc_u16(s, j, p1, Field::Version);
                        if p2 <= j {
                            match spec_read_u16(s, p2, Field::Version) {
                                Ok((c, p3)) => {
                                    crate::reader::lemma_trunc_u16(s, j, p2, Field::Version);
                                    if p3 <= j {
                                        crate::reader::lemma_trunc_u16(s, j, p3, Field::Version);
                                    }
                                },
                                Err(e) => {},
                            }
                        }
                    },
                    Err(e) => {},
                }
            }
        },
        Err(e) => {},
    }
}

/// Truncation behaviour of one mod-entry read.
proof fn lemma_trunc_mod(rules: EraRules, s: Seq<u8>, j: int, pos: int)
    requires
        0 <= pos <= j <= s.len(),
        spec_read_mod(rules, s, pos) is Ok,
    ensures
        (spec_read_mod(rules, s, pos) matches Ok((m, p)) ==> {
            &&& pos < p <= s.len()
            &&& (p <= j ==> spec_read_mod(rules, s.take(j), pos) == spec_read_mod(rules, s, pos))
            &&& (p > j ==> (spec_read_mod(rules, s.take(j), pos) matches Err(e) && e matches
            DecodeError::EndOfInput(_)))
        }),
{
    reveal(spec_read_mod);
    match spec_read_string(rules.mod_name_optimized, s, pos, Field::ModName) {
        Ok((name, p1)) => {
            crate::reader::lemma_trunc_string(rules.mod_name_optimized, s, j, pos, Field::ModName);
            match spec_read_triple(rules.triple_optimized, s, p1, Field::ModVersion) {
                Ok((ver, p2)) => {
                    crate::reader::lemma_trunc_triple(
                        rules.triple_optimized,
                        s,
                        s.len() as int,
                        p1,
                        Field::ModVersion,
                    );
                    if p1 <= j {
                        crate::reader::lemma_trunc_triple(
                            rules.triple_optimized,
                            s,
                            j,
                            p1,
                            Field::ModVersion,
                        );
                    }
                    if rules.mod_crc {
                        crate::reader::lemma_trunc_u32(s, s.len() as int, p2, Field::ModCrc);
                        if p2 <= j {
                            crate::reader::lemma_trunc_u32(s, j, p2, Field::ModCrc);
                        }
                    }
                },
                Err(e) => {},
            }
        },
        Err(e) => {},
    }
}

/// A successful run of mod-entry reads never moves backwards and ends
/// inside the stream.
proof fn lemma_mods_end_in_stream(rules: EraRules, s: Seq<u8>, pos: int, n: nat)
    requires
        0 <= pos <= s.len(),
        spec_read_mods(rules, s, pos, n) is Ok,
    ensures
        (spec_read_mods(rules, s, pos, n) matches Ok((ms, p)) ==> pos <= p <= s.len()),
    decreases n,
{
    reveal(spec_read_mods);
    if n > 0 {
        match spec_read_mod(rules, s, pos) {
            Ok((m, p1)) => {
                lemma_trunc_mod(rules, s, s.len() as int, pos);
                lemma_mods_end_in_stream(rules, s, p1, (n - 1) as nat);
            },
            Err(e) => {},
        }
    }
}

/// Truncation behaviour of a run of mod-entry reads.
#[verifier::rlimit(100)]
proof fn lemma_trunc_mods(rules: EraRules, s: Seq<u8>, j: int, pos: int, n: nat)
    requires
        0 <= pos <= j <= s.len(),
        spec_read_mods(rules, s, pos, n) is Ok,
    ensures
        (spec_read_mods(rules, s, pos, n) matches Ok((ms, p)) ==> {
            &&& pos <= p <= s.len()
            &&& (p <= j ==> spec_read_mods(rules, s.take(j), pos, n) == spec_read_mods(
                rules,
                s,
                pos,
                n,
            ))
            &&& (p > j ==> (spec_read_mods(rules, s.take(j), pos, n) matches Err(e) && e matches
            DecodeError::EndOfInput(_)))
        }),
    decreases n,
{
    reveal(spec_read_mods);
    if n > 0 {
        match spec_read_mod(rules, s, pos) {
            Ok((m, p1)) => {
                lemma_trunc_mod(rules, s, j, pos);
                if p1 <= j {
                    lemma_trunc_mods(rules, s, j, p1, (n - 1) as nat);
                } else {
                    lemma_mods_end_in_stream(rules, s, p1, (n - 1) as nat);
                }
            },
            Err(e) => {},
        }
    }
}

/// Truncation behaviour of the whole mod-list read.
#[verifier::rlimit(100)]
proof fn lemma_trunc_mod_array(rules: EraRules, s: Seq<u8>, j: int, pos: int)
    requires
        0 <= pos <= j <= s.len(),
        spec_read_mod_array(rules, s, pos) is Ok,
    ensures
        (spec_read_mod_array(rules, s, pos) matches Ok((ms, p)) ==> {
            &&& pos <= p <= s.len()
            &&& (p <= j ==> spec_read_mod_array(rules, s.take(j), pos) == spec_read_mod_array(
                rules,
                s,
                pos,
            ))
            &&& (p > j ==> (spec_read_mod_array(rules, s.take(j), pos) matches Err(e) && e matches
            DecodeError::EndOfInput(_)))
        }),
{
    match spec_read_len(rules.string_optimized, s, pos, Field::ModCount) {
        Ok((n, p1)) => {
            crate::reader::lemma_trunc_len(rules.string_optimized, s, j, pos, Field::ModCount);
            if p1 <= j {
                lemma_trunc_mods(rules, s, j, p1, n as nat);
            } else {
                lemma_mods_end_in_stream(rules, s, p1, n as nat);
            }
        },
        Err(e) => {},
    }
}

/// Truncation behaviour of the whole header decode: a cut at or past the
/// header's end leaves the decode unchanged, and a cut before it turns
/// the decode into an end-of-input error.  Every field read succeeded in
/// the full stream, so each step's truncation lemma applies in turn: the
/// reads that end by the cut agree, and the first read past it fails.
#[verifier::rlimit(100)]
proof fn lemma_trunc_header(s: Seq<u8>, j: int, pos: int)
    requires
        0 <= pos <= j <= s.len(),
        spec_read_header(s, pos) is Ok,
    ensures
        (spec_read_header(s, pos) matches Ok((h, end)) ==> {
            &&& (end <= j ==> spec_read_header(s.take(j), pos) == spec_read_header(s, pos))
            &&& (end > j ==> (spec_read_header(s.take(j), pos) matches Err(e) && e matches
            DecodeError::EndOfInput(_)))
        }),
{
    assert(spec_read_version(s, pos) is Ok);
    let (v, p0) = spec_read_version(s, pos)->Ok_0;
    lemma_trunc_version(s, j, pos);
    assert(crate::versions::spec_classify(v.major, v.minor, v.patch) is Ok);
    let era = crate::versions::spec_classify(v.major, v.minor, v.patch)->Ok_0;
    let rules = spec_bound_rules(era, v.major);
    assert(spec_read_quality_version(rules.quality_version, s, p0) is Ok);
    let (qv, p1) = spec_read_quality_version(rules.quality_version, s, p0)->Ok_0;
    crate::reader::lemma_trunc_quality_version(rules.quality_version, s, s.len() as int, p0);
    if p0 <= j {
        crate::reader::lemma_trunc_quality_version(rules.quality_version, s, j, p0);
    }
    assert(spec_read_string(rules.string_optimized, s, p1, Field::CampaignName) is Ok);
    let (cn, p2) = spec_read_string(rules.string_optimized, s, p1, Field::CampaignName)->Ok_0;
    crate::reader::lemma_trunc_string(rules.string_optimized, s, s.len() as int, p1, Field::CampaignName);
    if p1 <= j {
        crate::reader::lemma_trunc_string(rules.string_optimized, s, j, p1, Field::CampaignName);
    }
    assert(spec_read_string(rules.string_optimized, s, p2, Field::LevelName) is Ok);
    let (lv, p3) = spec_read_string(rules.string_optimized, s, p2, Field::LevelName)->Ok_0;
    crate::reader::lemma_trunc_string(rules.string_optimized, s, s.len() as int, p2, Field::LevelName);
    if p2 <= j {
        crate::reader::lemma_trunc_string(rules.string_optimized, s, j, p2, Field::LevelName);
    }
    assert(spec_read_string(rules.string_optimized, s, p3, Field::BaseModName) is Ok);
    let (bn, p4) = spec_read_string(rules.string_optimized, s, p3, Field::BaseModName)->Ok_0;
    crate::reader::lemma_trunc_string(rules.string_optimized, s, s.len() as int, p3, Field::BaseModName);
    if p3 <= j {
        crate::reader::lemma_trunc_string(rules.string_optimized, s, j, p3, Field::BaseModName);
    }
    assert(spec_read_difficulty(s, p4) is Ok);
    let (di, p5) = spec_read_difficulty(s, p4)->Ok_0;
    lemma_trunc_difficulty(s, s.len() as int, p4);
    if p4 <= j {
        lemma_trunc_difficulty(s, j, p4);
    }
    assert(spec_read_bool(s, p5, Field::Finished) is Ok);
    let (fi, p6) = spec_read_bool(s, p5, Field::Finished)->Ok_0;
    crate::reader::lemma_trunc_bool(s, s.len() as int, p5, Field::Finished);
    if p5 <= j {
        crate::reader::lemma_trunc_bool(s, j, p5, Field::Finished);
    }
    assert(spec_read_bool(s, p6, Field::PlayerWon) is Ok);
    let (pw, p7) = spec_read_bool(s, p6, Field::PlayerWon)->Ok_0;
    crate::reader::lemma_trunc_bool(s, s.len() as int, p6, Field::PlayerWon);
    if p6 <= j {
        crate::reader::lemma_trunc_bool(s, j, p6, Field::PlayerWon);
    }
    assert(spec_read_string(rules.string_optimized, s, p7, Field::NextLevel) is Ok);
    let (nl, p8) = spec_read_string(rules.string_optimized, s, p7, Field::NextLevel)->Ok_0;
    crate::reader::lemma_trunc_string(rules.string_optimized, s, s.len() as int, p7, Field::NextLevel);
    if p7 <= j {
        crate::reader::lemma_trunc_string(rules.string_optimized, s, j, p7, Field::NextLevel);
    }
    assert(spec_read_bool(s, p8, Field::CanContinue) is Ok);
    let (cc, p9) = spec_read_bool(s, p8, Field::CanContinue)->Ok_0;
    crate::reader::lemma_trunc_bool(s, s.len() as int, p8, Field::CanContinue);
    if p8 <= j {
        crate::reader::lemma_trunc_bool(s, j, p8, Field::CanContinue);
    }
    assert(spec_read_bool(s, p9, Field::FinishedButContinuing) is Ok);
    let (fb, p10) = spec_read_bool(s, p9, Field::FinishedButContinuing)->Ok_0;
    crate::reader::lemma_trunc_bool(s, s.len() as int, p9, Field::FinishedButContinuing);
    if p9 <= j {
        crate::reader::lemma_trunc_bool(s, j, p9, Field::FinishedButContinuing);
    }
    assert(spec_read_bool(s, p10, Field::SavingReplay) is Ok);
    let (sr, p11) = spec_read_bool(s, p10, Field::SavingReplay)->Ok_0;
    crate::reader::lemma_trunc_bool(s, s.len() as int, p10, Field::SavingReplay);
    if p10 <= j {
        crate::reader::lemma_trunc_bool(s, j, p10, Field::SavingReplay);
    }
    assert(spec_read_debug_options(rules.debug_options, s, p11) is Ok);
    let (dg, p12) = spec_read_debug_options(rules.debug_options, s, p11)->Ok_0;
    crate::reader::lemma_trunc_debug_options(rules.debug_options, s, s.len() as int, p11);
    if p11 <= j {
        crate::reader::lemma_trunc_debug_options(rules.debug_options, s, j, p11);
    }
    assert(spec_read_triple(rules.triple_optimized, s, p12, Field::LoadedFrom) is Ok);
    let (lf, p13) = spec_read_triple(rules.triple_optimized, s, p12, Field::LoadedFrom)->Ok_0;
    crate::reader::lemma_trunc_triple(rules.triple_optimized, s, s.len() as int, p12, Field::LoadedFrom);
    if p12 <= j {
        crate::reader::lemma_trunc_triple(rules.triple_optimized, s, j, p12, Field::LoadedFrom);
    }
    assert(spec_read_build(rules.build_optimized, s, p13) is Ok);
    let (lb, p14) = spec_read_build(rules.build_optimized, s, p13)->Ok_0;
    crate::reader::lemma_trunc_build(rules.build_optimized, s, s.len() as int, p13);
    if p13 <= j {
        crate::reader::lemma_trunc_build(rules.build_optimized, s, j, p13);
    }
    assert(spec_read_allowed_commands(s, p14) is Ok);
    let (ac, p15) = spec_read_allowed_commands(s, p14)->Ok_0;
    lemma_trunc_allowed_commands(s, s.len() as int, p14);
    if p14 <= j {
        lemma_trunc_allowed_commands(s, j, p14);
    }
    assert(spec_read_large_blueprint(rules.large_blueprint, s, p15) is Ok);
    let (lg, p16) = spec_read_large_blueprint(rules.large_blueprint, s, p15)->Ok_0;
    lemma_trunc_large_blueprint(rules.large_blueprint, s, s.len() as int, p15);
    if p15 <= j {
        lemma_trunc_large_blueprint(rules.large_blueprint, s, j, p15);
    }
    assert(spec_read_mod_array(rules, s, p16) is Ok);
    let (ms, p17) = spec_read_mod_array(rules, s, p16)->Ok_0;
    lemma_trunc_mod_array(rules, s, s.len() as int, p16);
    if p16 <= j {
        lemma_trunc_mod_array(rules, s, j, p16);
    }
}

/// Law: truncating a decodable stream strictly before the end of its
/// header yields an end-of-input error, never a different complete
/// header; and a cut at or past the end leaves the decoded header
/// unchanged.
pub proof fn lemma_truncated_header_is_end_of_input(s: Seq<u8>, h: HeaderV, end: int, j: int)
    requires
        spec_read_header(s, 0) == Ok::<(HeaderV, int), DecodeError>((h, end)),
        0 <= j <= s.len(),
    ensures
        j < end ==> (spec_decode_header(s.take(j)) matches Err(e) && e matches
        DecodeError::EndOfInput(_)),
        j >= end ==> spec_decode_header(s.take(j)) == Ok::<HeaderV, DecodeError>(h),
{
    lemma_trunc_header(s, j, 0);
}

} // verus!
