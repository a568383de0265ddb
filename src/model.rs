use vstd::prelude::*;

verus! {

/// A dataset: an ordered, fixed collection of points, read and never changed.
pub struct Data<T> {
    points: Vec<T>,
}

impl<T> View for Data<T> {
    type V = Seq<T>;

    closed spec fn view(&self) -> Seq<T> {
        self.points@
    }
}

impl<T> Data<T> {
    pub fn new(points: Vec<T>) -> (r: Self)
        ensures
            r@ == points@,
    {
        Data { points }
    }

    /// The number of points, `N`.
    pub fn n_datapoints(&self) -> (r: usize)
        ensures
            r == self@.len(),
    {
        self.points.len()
    }

    pub fn points(&self) -> (r: &Vec<T>)
        ensures
            r@ == self@,
    {
        &self.points
    }
}

/// A model that can be fitted to a minimal sample of points and then tells which
/// points it explains. Implemented by callers for the model they want to fit.
///
/// Logically an estimator is two rules: `fit`, from a sample to a hypothesis, and
/// `inlier`, from a hypothesis and a point to whether the point lies within the
/// inlier threshold. Fitting changes which hypothesis is current, never the rules.
pub trait Estimator<T, H> {
    /// The hypothesis fitted to the points of `points` at the indices `sample`.
    /// Left unspecified by default; an impl that Verus checks defines it.
    open spec fn fit(&self, points: Seq<T>, sample: Seq<usize>) -> H {
        vstd::pervasive::arbitrary()
    }

    /// Whether `point` lies within the inlier threshold of `hypothesis`.
    /// Left unspecified by default; an impl that Verus checks defines it.
    open spec fn inlier(&self, hypothesis: H, point: T) -> bool {
        vstd::pervasive::arbitrary()
    }

    /// The hypothesis of the most recent fit.
    /// Left unspecified by default; an impl that Verus checks defines it.
    open spec fn current(&self) -> H {
        vstd::pervasive::arbitrary()
    }

    /// Fits the model to the points of `points` at the indices `sample` (indices may
    /// repeat), makes the result current and returns it.
    fn fit_hypothesis(&mut self, points: &Vec<T>, sample: &Vec<usize>) -> (r: H)
        requires
            forall|k: int| 0 <= k < sample@.len() ==> #[trigger] sample@[k] < points@.len(),
        ensures
            r == old(self).fit(points@, sample@),
            final(self).current() == r,
            forall|p: Seq<T>, s: Seq<usize>| #[trigger] final(self).fit(p, s) == old(self).fit(p, s),
            forall|h: H, x: T| #[trigger] final(self).inlier(h, x) == old(self).inlier(h, x),
    ;

    /// Whether `point` lies within the inlier threshold of the current fit.
    fn is_inlier(&self, point: &T) -> (r: bool)
        ensures
            r == self.inlier(self.current(), *point),
    ;
}

} // verus!
