//! The ratings domain: stored rating records with an in-memory repository
//! and the service over it. Insertion appends; lookup returns a user's
//! records in insertion order.

use vstd::prelude::*;

verus! {

/// One stored rating record. The rating is in half-star units when present.
pub struct Rating {
    pub id: i32,
    pub username: String,
    pub game_name: String,
    pub rating_halves: Option<u8>,
    pub timestamp: i32,
}

/// The mathematical shape of a [`Rating`].
pub ghost struct RatingView {
    pub id: int,
    pub username: Seq<char>,
    pub game_name: Seq<char>,
    pub rating_halves: Option<int>,
    pub timestamp: int,
}

impl View for Rating {
    type V = RatingView;

    open spec fn view(&self) -> RatingView {
        RatingView {
            id: self.id as int,
            username: self.username@,
            game_name: self.game_name@,
            rating_halves: match self.rating_halves {
                Option::Some(h) => Option::Some(h as int),
                Option::None => Option::None,
            },
            timestamp: self.timestamp as int,
        }
    }
}

impl DeepView for Rating {
    type V = RatingView;

    open spec fn deep_view(&self) -> RatingView {
        self.view()
    }
}

impl Clone for Rating {
    fn clone(&self) -> (r: Self)
        ensures
            r@ == self@,
    {
        Rating {
            id: self.id,
            username: self.username.clone(),
            game_name: self.game_name.clone(),
            rating_halves: self.rating_halves,
            timestamp: self.timestamp,
        }
    }
}

/// The records of one user, in stored order.
pub open spec fn ratings_for(s: Seq<RatingView>, username: Seq<char>) -> Seq<RatingView>
    decreases s.len(),
{
    if s.len() == 0 {
        s
    } else {
        let rest = ratings_for(s.drop_first(), username);
        if s[0].username == username {
            seq![s[0]] + rest
        } else {
            rest
        }
    }
}

/// Stores rating records in memory, in insertion order.
pub struct RatingRepository {
    pub ratings: Vec<Rating>,
}

impl View for RatingRepository {
    type V = Seq<RatingView>;

    open spec fn view(&self) -> Seq<RatingView> {
        self.ratings.deep_view()
    }
}

impl RatingRepository {
    /// An empty repository.
    pub fn new() -> (r: RatingRepository)
        ensures
            r@ == Seq::<RatingView>::empty(),
    {
        let r = RatingRepository { ratings: Vec::new() };
        proof {
            assert(r@ =~= Seq::<RatingView>::empty());
        }
        r
    }

    /// All stored records of one user, in insertion order. Lookup cannot
    /// fail; the error side only mirrors the storage interface.
    pub fn get_ratings(&self, username: &str) -> (r: Result<Vec<Rating>, String>)
        ensures
            r matches Result::Ok(v) && v.deep_view() == ratings_for(self@, username@),
    {
        let n = self.ratings.len();
        let mut out: Vec<Rating> = Vec::new();
        let mut i: usize = 0;
        proof {
            assert(self@.skip(0) =~= self@);
            assert(out.deep_view() =~= Seq::<RatingView>::empty());
        }
        while i < n
            invariant
                n == self.ratings@.len(),
                0 <= i <= n,
                ratings_for(self@, username@) == out.deep_view() + ratings_for(
                    self@.skip(i as int),
                    username@,
                ),
            decreases n - i,
        {
            let ghost rest = self@.skip(i as int);
            let ghost out0 = out.deep_view();
            proof {
                assert(rest.drop_first() =~= self@.skip(i + 1 as int));
                assert(rest[0] == self.ratings@[i as int]@);
            }
            let record = &self.ratings[i];
            if record.username.eq(&username.to_owned()) {
                out.push(record.clone());
                proof {
                    assert(out.deep_view() =~~= out0.push(rest[0]));
                    assert(out.deep_view() + ratings_for(rest.drop_first(), username@) =~= out0 + (
                    seq![rest[0]] + ratings_for(rest.drop_first(), username@)));
                }
            }
            i += 1;
        }
        proof {
            assert(self@.skip(n as int) =~= Seq::<RatingView>::empty());
            assert(out.deep_view() =~= ratings_for(self@, username@));
        }
        Result::Ok(out)
    }

    /// Appends one record. Insertion cannot fail; the error side only
    /// mirrors the storage interface.
    pub fn add_rating(&mut self, rating: Rating) -> (r: Result<(), String>)
        ensures
            final(self)@ == old(self)@.push(rating@),
            r is Ok,
    {
        let ghost before = self@;
        self.ratings.push(rating);
        proof {
            assert(self@ =~~= before.push(rating@));
        }
        Result::Ok(())
    }
}

/// The rating service: the domain interface over the repository.
pub struct RatingService {
    pub repo: RatingRepository,
}

impl View for RatingService {
    type V = Seq<RatingView>;

    open spec fn view(&self) -> Seq<RatingView> {
        self.repo@
    }
}

impl RatingService {
    /// A service over the given repository.
    pub fn new(repo: RatingRepository) -> (s: RatingService)
        ensures
            s@ == repo@,
    {
        RatingService { repo }
    }

    /// All stored records of one user, in insertion order.
    pub fn get_ratings(&self, username: &str) -> (r: Result<Vec<Rating>, String>)
        ensures
            r matches Result::Ok(v) && v.deep_view() == ratings_for(self@, username@),
    {
        self.repo.get_ratings(username)
    }

    /// Appends one record.
    pub fn add_rating(&mut self, rating: Rating) -> (r: Result<(), String>)
        ensures
            final(self)@ == old(self)@.push(rating@),
            r is Ok,
    {
        self.repo.add_rating(rating)
    }
}

} // verus!
