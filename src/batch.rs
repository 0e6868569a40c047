use vstd::prelude::*;

verus! {

/// Image names grouped into batches of a fixed size.
pub struct ImageBatchBuilder {
    pub images: Vec<String>,
    pub batch_size: usize,
}

impl ImageBatchBuilder {
    pub fn new(images: Vec<String>, batch_size: usize) -> (b: ImageBatchBuilder)
        ensures
            b.images == images,
            b.batch_size == batch_size,
    {
        ImageBatchBuilder { images, batch_size }
    }

    /// Walks the images batch by batch and pairs each one with itself as
    /// (input, output); the pairs come out in the order of the images.
    pub fn build(&self) -> (r: Vec<(String, String)>)
        requires
            self.batch_size > 0,
        ensures
            r@.len() == self.images@.len(),
            forall|i: int|
                0 <= i < r@.len() ==> r@[i].0@ == self.images@[i]@ && r@[i].1@ == self.images@[i]@,
    {
        let n = self.images.len();
        let mut pairs: Vec<(String, String)> = Vec::new();
        let mut start: usize = 0;
        while start < n
            invariant
                n == self.images@.len(),
                self.batch_size > 0,
                start <= n,
                pairs@.len() == start,
                forall|i: int|
                    0 <= i < start ==> pairs@[i].0@ == self.images@[i]@ && pairs@[i].1@
                        == self.images@[i]@,
            decreases n - start,
        {
            let end = if n - start < self.batch_size { n } else { start + self.batch_size };
            let mut i = start;
            while i < end
                invariant
                    n == self.images@.len(),
                    start <= i <= end <= n,
                    pairs@.len() == i,
                    forall|j: int|
                        0 <= j < i ==> pairs@[j].0@ == self.images@[j]@ && pairs@[j].1@
                            == self.images@[j]@,
                decreases end - i,
            {
                let image = &self.images[i];
                pairs.push((image.clone(), image.clone()));
                i = i + 1;
            }
            start = end;
        }
        pairs
    }
}

/// The directories an image pipeline reads its cache from and writes to.
pub struct ImagePipeline {
    pub cache_dir: String,
    pub output_dir: String,
}

impl ImagePipeline {
    /// The given directories, or `./.cache` and `./out` where none is given.
    pub fn new(cache_dir: Option<String>, output_dir: Option<String>) -> (p: ImagePipeline)
        ensures
            p.cache_dir@ == match cache_dir {
                Some(d) => d@,
                None => "./.cache"@,
            },
            p.output_dir@ == match output_dir {
                Some(d) => d@,
                None => "./out"@,
            },
    {
        let cache_dir = match cache_dir {
            Some(d) => d,
            None => "./.cache".to_owned(),
        };
        let output_dir = match output_dir {
            Some(d) => d,
            None => "./out".to_owned(),
        };
        ImagePipeline { cache_dir, output_dir }
    }

    /// Each directory paired with itself: the cache directory, then the
    /// output directory.
    pub fn build(&self) -> (r: Vec<(String, String)>)
        ensures
            r@.len() == 2,
            r@[0].0@ == self.cache_dir@ && r@[0].1@ == self.cache_dir@,
            r@[1].0@ == self.output_dir@ && r@[1].1@ == self.output_dir@,
    {
        let mut r: Vec<(String, String)> = Vec::new();
        r.push((self.cache_dir.clone(), self.cache_dir.clone()));
        r.push((self.output_dir.clone(), self.output_dir.clone()));
        r
    }
}

} // verus!
