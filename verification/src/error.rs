use vstd::prelude::*;

verus! {

/// The header field that was being decoded when an error arose.
#[derive(Clone, Copy, Debug, PartialEq, Eq, Structural)]
pub enum Field {
    Version,
    QualityVersion,
    CampaignName,
    LevelName,
    BaseModName,
    Difficulty,
    Finished,
    PlayerWon,
    NextLevel,
    CanContinue,
    FinishedButContinuing,
    SavingReplay,
    AllowNonAdminDebugOptions,
    LoadedFrom,
    LoadedFromBuild,
    AllowedCommands,
    LargeBlueprintSize,
    ModCount,
    ModName,
    ModVersion,
    ModCrc,
}

/// A terminal decode error.  Any of these aborts the whole decode: the
/// decoder never returns a partial header.
#[derive(Clone, Copy, Debug, PartialEq, Eq, Structural)]
pub enum DecodeError {
    /// The stream ran out of bytes in the middle of the named field.
    EndOfInput(Field),
    /// The named field holds the given byte, which is outside its range.
    InvalidByte(Field, u8),
    /// The named string field holds bytes that are not valid UTF-8.
    InvalidUtf8(Field),
    /// The declared version matches no supported format era.
    UnsupportedVersion,
}

} // verus!
