//! Kernel sources, PTX generation and launch configurations.
use vstd::prelude::*;
use vstd::string::*;
use crate::error::OxideResult;

verus! {

/// The PTX text generated for a kernel: a comment naming it, the PTX
/// version and target lines, and an entry directive for it.
pub open spec fn spec_ptx(kernel_name: Seq<char>) -> Seq<char> {
    "// PTX for kernel: "@ + kernel_name + "\n.version 8.0\n.target sm_86\n.entry "@ + kernel_name
}

/// Generates PTX for kernels.
pub struct PtxCompiler;

impl PtxCompiler {
    /// The PTX for kernel `kernel_name`; the source is not read, and this
    /// never fails.
    pub fn compile_kernel(source: &str, kernel_name: &str) -> (r: OxideResult<String>)
        ensures
            r matches Ok(s) && s@ == spec_ptx(kernel_name@),
    {
        let mut s = String::from_str("// PTX for kernel: ");
        s.append(kernel_name);
        s.append("\n.version 8.0\n.target sm_86\n.entry ");
        s.append(kernel_name);
        proof {
            reveal_strlit("// PTX for kernel: ");
            reveal_strlit("\n.version 8.0\n.target sm_86\n.entry ");
        }
        Ok(s)
    }
}

/// A kernel to build.
#[derive(Clone, Debug)]
pub struct KernelSource {
    pub name: String,
    pub source: String,
    pub block_size: usize,
}

/// Collects kernels and plans their PTX files.
pub struct KernelBuilder {
    kernels: Vec<KernelSource>,
}

/// The path of a kernel's PTX file: `<dir>/<name>.ptx`.
pub open spec fn spec_ptx_path(dir: Seq<char>, name: Seq<char>) -> Seq<char> {
    dir + "/"@ + name + ".ptx"@
}

impl KernelBuilder {
    /// The kernels added so far, in order.
    pub closed spec fn sources(&self) -> Seq<KernelSource> {
        self.kernels@
    }

    pub fn new() -> (r: Self)
        ensures
            r.sources() == Seq::<KernelSource>::empty(),
    {
        Self { kernels: Vec::new() }
    }

    /// Add kernel to build
    pub fn add_kernel(&mut self, name: &str, source: &str, block_size: usize)
        ensures
            final(self).sources().len() == old(self).sources().len() + 1,
            final(self).sources().drop_last() == old(self).sources(),
            final(self).sources().last().name@ == name@,
            final(self).sources().last().source@ == source@,
            final(self).sources().last().block_size == block_size,
    {
        self.kernels.push(KernelSource {
            name: String::from_str(name),
            source: String::from_str(source),
            block_size,
        });
        assert(self.kernels@.drop_last() =~= old(self).kernels@);
    }

    /// Builds every kernel: for each, in order, its PTX path under
    /// `output_dir` and the PTX text to be written there. Writing the files
    /// is left to the caller.
    pub fn build_all(&self, output_dir: &str) -> (r: Vec<(String, String)>)
        ensures
            r@.len() == self.sources().len(),
            forall|i: int| 0 <= i < r@.len() ==> {
                &&& (#[trigger] r@[i]).0@ == spec_ptx_path(output_dir@, self.sources()[i].name@)
                &&& r@[i].1@ == spec_ptx(self.sources()[i].name@)
            },
    {
        proof {
            reveal_strlit("/");
            reveal_strlit(".ptx");
        }
        let mut out: Vec<(String, String)> = Vec::new();
        let mut i: usize = 0;
        while i < self.kernels.len()
            invariant
                i <= self.kernels@.len(),
                out@.len() == i,
                forall|j: int| 0 <= j < i ==> {
                    &&& (#[trigger] out@[j]).0@ == spec_ptx_path(output_dir@, self.kernels@[j].name@)
                    &&& out@[j].1@ == spec_ptx(self.kernels@[j].name@)
                },
            decreases self.kernels@.len() - i,
        {
            let k = &self.kernels[i];
            let mut path = String::from_str(output_dir);
            path.append("/");
            path.append(k.name.as_str());
            path.append(".ptx");
            let ptx = PtxCompiler::compile_kernel(k.source.as_str(), k.name.as_str());
            match ptx {
                Ok(p) => {
                    out.push((path, p));
                },
                Err(_) => {
                    assert(false);
                },
            }
            i = i + 1;
        }
        out
    }

    /// The first kernel named `name`.
    pub fn get_kernel(&self, name: &str) -> (r: Option<&KernelSource>)
        ensures
            r is None <==> (forall|i: int| 0 <= i < self.sources().len() ==> #[trigger] self.sources()[i].name@ != name@),
            r matches Some(k) ==> exists|i: int| 0 <= i < self.sources().len()
                && *k == self.sources()[i] && k.name@ == name@
                && forall|j: int| 0 <= j < i ==> #[trigger] self.sources()[j].name@ != name@,
    {
        let mut i: usize = 0;
        while i < self.kernels.len()
            invariant
                i <= self.kernels@.len(),
                forall|j: int| 0 <= j < i ==> #[trigger] self.kernels@[j].name@ != name@,
            decreases self.kernels@.len() - i,
        {
            if crate::text::str_eq(self.kernels[i].name.as_str(), name) {
                let k = &self.kernels[i];
                proof {
                    assert(*k == self.sources()[i as int]);
                    assert(!(forall|j: int| 0 <= j < self.sources().len() ==> #[trigger] self.sources()[j].name@ != name@));
                }
                return Some(k);
            }
            i = i + 1;
        }
        None
    }
}

/// Grid, block and shared-memory sizes for one kernel launch.
#[derive(Debug, Clone, Copy, PartialEq, Eq)]
pub struct LaunchConfig {
    pub grid_dim: (u32, u32, u32),
    pub block_dim: (u32, u32, u32),
    pub shared_mem_bytes: u32,
}

/// Builds a launch configuration; sizes given as `usize` are cut to their
/// low 32 bits.
pub struct LaunchConfigBuilder {
    grid_dim: (u32, u32, u32),
    block_dim: (u32, u32, u32),
    shared_mem: u32,
}

impl LaunchConfigBuilder {
    /// The configuration this builder holds.
    pub closed spec fn config(&self) -> LaunchConfig {
        LaunchConfig { grid_dim: self.grid_dim, block_dim: self.block_dim, shared_mem_bytes: self.shared_mem }
    }

    /// One block of 256 threads, no shared memory.
    pub fn new() -> (r: Self)
        ensures
            r.config() == (LaunchConfig { grid_dim: (1, 1, 1), block_dim: (256, 1, 1), shared_mem_bytes: 0 }),
    {
        Self { grid_dim: (1, 1, 1), block_dim: (256, 1, 1), shared_mem: 0 }
    }

    /// Set 1D grid
    pub fn grid_1d(self, size: usize) -> (r: Self)
        ensures
            r.config() == (LaunchConfig { grid_dim: (size as u32, 1, 1), ..self.config() }),
    {
        let mut s = self;
        s.grid_dim = (size as u32, 1, 1);
        s
    }

    /// Set 2D grid
    pub fn grid_2d(self, x: usize, y: usize) -> (r: Self)
        ensures
            r.config() == (LaunchConfig { grid_dim: (x as u32, y as u32, 1), ..self.config() }),
    {
        let mut s = self;
        s.grid_dim = (x as u32, y as u32, 1);
        s
    }

    /// Set 1D block
    pub fn block_1d(self, size: usize) -> (r: Self)
        ensures
            r.config() == (LaunchConfig { block_dim: (size as u32, 1, 1), ..self.config() }),
    {
        let mut s = self;
        s.block_dim = (size as u32, 1, 1);
        s
    }

    /// Set 2D block
    pub fn block_2d(self, x: usize, y: usize) -> (r: Self)
        ensures
            r.config() == (LaunchConfig { block_dim: (x as u32, y as u32, 1), ..self.config() }),
    {
        let mut s = self;
        s.block_dim = (x as u32, y as u32, 1);
        s
    }

    /// Set shared memory
    pub fn shared_mem(self, bytes: u32) -> (r: Self)
        ensures
            r.config() == (LaunchConfig { shared_mem_bytes: bytes, ..self.config() }),
    {
        let mut s = self;
        s.shared_mem = bytes;
        s
    }

    /// Build configuration
    pub fn build(self) -> (r: LaunchConfig)
        ensures
            r == self.config(),
    {
        LaunchConfig { grid_dim: self.grid_dim, block_dim: self.block_dim, shared_mem_bytes: self.shared_mem }
    }
}

/// Occupancy heuristics.
pub struct OccupancyCalculator;

impl OccupancyCalculator {
    /// Two blocks' worth of threads; the number of SMs is not used.
    pub fn grid_size_for_occupancy(block_size: usize, _num_sms: usize) -> (r: usize)
        requires
            block_size * 2 <= usize::MAX,
        ensures
            r == block_size * 2,
    {
        block_size * 2
    }
}

} // verus!
