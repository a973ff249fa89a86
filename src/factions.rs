use vstd::prelude::*;
use vstd::string::StringExecFns;

verus! {

pub const PLAYER: &'static str = "player";
pub const MONSTER: &'static str = "monster";
pub const NEUTRAL: &'static str = "neutral";

/// Who holds an opinion, and about whom.
#[derive(Clone, Debug)]
pub struct OpinionKey {
    pub subject: String,
    pub object: String,
}

/// How one faction regards another, in thousandths from -1000 (hatred) to
/// 1000 (devotion).
#[derive(PartialEq, Eq, Structural, Clone, Copy, Debug, Default)]
pub struct Opinion(pub i32);

impl Opinion {
    pub fn is_positive(self) -> (b: bool)
        ensures
            b == (self.0 > 0),
    {
        self.0 > 0
    }

    pub fn is_negative(self) -> (b: bool)
        ensures
            b == (self.0 < 0),
    {
        self.0 < 0
    }

    /// Above one half.
    pub fn is_friendly(self) -> (b: bool)
        ensures
            b == (self.0 > 500),
    {
        self.0 > 500
    }

    /// Below minus one half.
    pub fn is_hostile(self) -> (b: bool)
        ensures
            b == (self.0 < -500),
    {
        self.0 < -500
    }
}

/// The opinion that the first entry for `(subject, object)` holds, or the
/// neutral opinion where there is none.
pub open spec fn lookup(s: Seq<(OpinionKey, Opinion)>, subject: Seq<char>, object: Seq<char>) -> Opinion
    decreases s.len(),
{
    if s.len() == 0 {
        Opinion(0)
    } else if s[0].0.subject@ == subject && s[0].0.object@ == object {
        s[0].1
    } else {
        lookup(s.drop_first(), subject, object)
    }
}

/// The opinions factions hold of each other.
pub struct Factions {
    pub player_faction: String,
    pub opinions: Vec<(OpinionKey, Opinion)>,
}

impl Factions {
    /// The opinion that `subject` holds of `object`; neutral unless set.
    pub open spec fn opinion(&self, subject: Seq<char>, object: Seq<char>) -> Opinion {
        lookup(self.opinions@, subject, object)
    }

    /// The player's faction and the monsters' hate each other; every other
    /// pair is neutral.
    pub fn new() -> (f: Factions)
        ensures
            f.player_faction@ == PLAYER@,
            f.opinion(PLAYER@, MONSTER@) == Opinion(-1000i32),
            f.opinion(MONSTER@, PLAYER@) == Opinion(-1000i32),
            forall|s: Seq<char>, o: Seq<char>|
                !((s == PLAYER@ && o == MONSTER@) || (s == MONSTER@ && o == PLAYER@))
                    ==> #[trigger] f.opinion(s, o) == Opinion(0),
    {
        let mut f = Factions { player_faction: String::from_str(PLAYER), opinions: Vec::new() };
        f.set_symmetric(PLAYER, MONSTER, Opinion(-1000));
        f
    }

    /// The opinion that `subject` holds of `object`.
    pub fn get(&self, subject: &str, object: &str) -> (o: Opinion)
        ensures
            o == self.opinion(subject@, object@),
    {
        let subject_key = String::from_str(subject);
        let object_key = String::from_str(object);
        let mut i: usize = 0;
        assert(self.opinions@.subrange(0, self.opinions@.len() as int) =~= self.opinions@);
        while i < self.opinions.len()
            invariant
                0 <= i <= self.opinions@.len(),
                subject_key@ == subject@,
                object_key@ == object@,
                lookup(self.opinions@, subject@, object@) == lookup(
                    self.opinions@.subrange(i as int, self.opinions@.len() as int),
                    subject@,
                    object@,
                ),
            decreases self.opinions.len() - i,
        {
            let ghost rest = self.opinions@.subrange(i as int, self.opinions@.len() as int);
            assert(rest[0] == self.opinions@[i as int]);
            let same_subject = self.opinions[i].0.subject.eq(&subject_key);
            let same_object = self.opinions[i].0.object.eq(&object_key);
            if same_subject && same_object {
                return self.opinions[i].1;
            }
            assert(rest.drop_first() =~= self.opinions@.subrange(
                i + 1,
                self.opinions@.len() as int,
            ));
            i = i + 1;
        }
        Opinion(0)
    }

    /// Sets the opinion that `subject` holds of `object`.
    pub fn set(&mut self, subject: &str, object: &str, opinion: Opinion)
        ensures
            final(self).player_faction == old(self).player_faction,
            final(self).opinion(subject@, object@) == opinion,
            forall|s: Seq<char>, o: Seq<char>|
                !(s == subject@ && o == object@) ==> #[trigger] final(self).opinion(s, o) == old(
                    self,
                ).opinion(s, o),
    {
        let key = OpinionKey { subject: String::from_str(subject), object: String::from_str(object) };
        let ghost before = self.opinions@;
        self.opinions.insert(0, (key, opinion));
        assert(self.opinions@.drop_first() =~= before);
    }

    /// Sets the same opinion in both directions.
    pub fn set_symmetric(&mut self, subject: &str, object: &str, opinion: Opinion)
        ensures
            final(self).player_faction == old(self).player_faction,
            final(self).opinion(subject@, object@) == opinion,
            final(self).opinion(object@, subject@) == opinion,
            forall|s: Seq<char>, o: Seq<char>|
                !((s == subject@ && o == object@) || (s == object@ && o == subject@))
                    ==> #[trigger] final(self).opinion(s, o) == old(self).opinion(s, o),
    {
        self.set(subject, object, opinion);
        self.set(object, subject, opinion);
    }
}

} // verus!
