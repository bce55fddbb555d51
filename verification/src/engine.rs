//! The evolutionary engine: individuals with a character chromosome and an
//! edit-distance fitness, and the population operations that advance one
//! generation — scoring, truncation selection, uniform crossover, mutation
//! and random refill.

use vstd::prelude::*;
use rand::rngs::StdRng;
use crate::entropy::rand_below;
use crate::levenshtein::{edit_dist, char_distance, lemma_edit_dist_le_max};

verus! {

/// Probabilities are expressed as integer percentages; this is the value
/// that stands for certainty.
pub const RATE_MAX: u32 = 100;

/// The chromosome alphabet: the printable range that starts at the space
/// character and spans 90 code points.
pub open spec fn printable(c: char) -> bool {
    0x20 <= (c as u32) && (c as u32) < 0x7a
}

/// Draw one uniformly random character of the chromosome alphabet.
fn random_gene(rng: &mut StdRng) -> (c: char)
    ensures
        printable(c),
{
    let r = rand_below(rng, 90);
    let byte: u8 = 0x20 + (r as u8);
    byte as char
}

/// One candidate solution: a character sequence and its score.
pub struct Individual {
    /// Sequence of genes.
    pub chromosome: Vec<char>,
    /// How close the chromosome is to the goal; lower is better. It is 0
    /// until an evaluation pass fills it in.
    pub fitness: i32,
}

impl Individual {
    /// Every gene lies in the chromosome alphabet.
    pub open spec fn all_printable(self) -> bool {
        forall|k: int|
            0 <= k < self.chromosome@.len() ==> printable(#[trigger] self.chromosome@[k])
    }

    /// A new individual with the given chromosome and unevaluated fitness.
    pub fn new(chromosome: Vec<char>) -> (ind: Individual)
        ensures
            ind.chromosome == chromosome,
            ind.fitness == 0,
    {
        Individual { chromosome, fitness: 0 }
    }

    /// A new individual whose chromosome holds `chromosome_size` uniformly
    /// random characters of the alphabet; fitness is unevaluated.
    pub fn new_random(rng: &mut StdRng, chromosome_size: usize) -> (ind: Individual)
        ensures
            ind.chromosome@.len() == chromosome_size,
            ind.all_printable(),
            ind.fitness == 0,
    {
        let mut chromosome: Vec<char> = Vec::new();
        let mut k: usize = 0;
        while k < chromosome_size
            invariant
                k <= chromosome_size,
                chromosome@.len() == k,
                forall|t: int| 0 <= t < k ==> printable(#[trigger] chromosome@[t]),
            decreases chromosome_size - k,
        {
            let g = random_gene(rng);
            chromosome.push(g);
            k += 1;
        }
        Individual::new(chromosome)
    }

    /// An owned copy with the same chromosome and fitness.
    pub fn duplicate(&self) -> (r: Individual)
        ensures
            r.chromosome@ == self.chromosome@,
            r.fitness == self.fitness,
    {
        Individual { chromosome: self.chromosome.clone(), fitness: self.fitness }
    }

    /// Replace each gene, independently with probability
    /// `probability / RATE_MAX`, by a fresh random character of the
    /// alphabet; the chromosome length and the fitness field are untouched.
    pub fn mutate(&mut self, rng: &mut StdRng, probability: u32)
        requires
            probability <= RATE_MAX,
        ensures
            final(self).chromosome@.len() == old(self).chromosome@.len(),
            final(self).fitness == old(self).fitness,
            forall|k: int|
                0 <= k < old(self).chromosome@.len() ==> (#[trigger] final(self).chromosome@[k]
                    == old(self).chromosome@[k] || printable(final(self).chromosome@[k])),
            probability == 0 ==> final(self).chromosome@ == old(self).chromosome@,
            probability == RATE_MAX ==> forall|k: int|
                0 <= k < old(self).chromosome@.len() ==> printable(
                    #[trigger] final(self).chromosome@[k],
                ),
    {
        let len = self.chromosome.len();
        let mut k: usize = 0;
        while k < len
            invariant
                k <= len,
                probability <= RATE_MAX,
                len == self.chromosome@.len(),
                self.chromosome@.len() == old(self).chromosome@.len(),
                self.fitness == old(self).fitness,
                forall|t: int|
                    k <= t < len ==> #[trigger] self.chromosome@[t] == old(self).chromosome@[t],
                forall|t: int|
                    0 <= t < k ==> (#[trigger] self.chromosome@[t] == old(self).chromosome@[t]
                        || printable(self.chromosome@[t])),
                probability == 0 ==> forall|t: int|
                    0 <= t < k ==> #[trigger] self.chromosome@[t] == old(self).chromosome@[t],
                probability == RATE_MAX ==> forall|t: int|
                    0 <= t < k ==> printable(#[trigger] self.chromosome@[t]),
            decreases len - k,
        {
            let draw = rand_below(rng, RATE_MAX);
            if draw < probability {
                let g = random_gene(rng);
                self.chromosome[k] = g;
            }
            k += 1;
        }
        proof {
            if probability == 0 {
                assert(self.chromosome@ =~= old(self).chromosome@);
            }
        }
    }
}

/// Inserting an element anywhere in a sequence adds exactly one occurrence
/// of it to the sequence's multiset.
proof fn lemma_insert_to_multiset<A>(s: Seq<A>, i: int, x: A)
    requires
        0 <= i <= s.len(),
    ensures
        s.insert(i, x).to_multiset() == s.to_multiset().insert(x),
{
    broadcast use vstd::seq_lib::group_to_multiset_ensures;
    broadcast use vstd::multiset::group_multiset_axioms;

    let t = s.insert(i, x);
    assert(t.remove(i) =~= s);
    assert(t[i] == x);
    assert(t.contains(x));
    assert(t.to_multiset().count(x) > 0);
    assert(t.to_multiset() =~= s.to_multiset().insert(x)) by {
        assert(t.remove(i).to_multiset() =~= t.to_multiset().remove(x));
    }
}

/// Taking an element out of a sequence and putting the same element back at
/// any position leaves the sequence's multiset unchanged.
proof fn lemma_remove_insert_multiset<A>(s: Seq<A>, i: int, j: int)
    requires
        0 <= i < s.len(),
        0 <= j <= s.len() - 1,
    ensures
        s.remove(i).insert(j, s[i]).to_multiset() == s.to_multiset(),
{
    broadcast use vstd::seq_lib::group_to_multiset_ensures;
    broadcast use vstd::multiset::group_multiset_axioms;

    let x = s[i];
    let s1 = s.remove(i);
    lemma_insert_to_multiset(s1, j, x);
    assert(s.contains(x));
    assert(s.to_multiset().count(x) > 0);
    assert(s1.to_multiset() =~= s.to_multiset().remove(x));
    assert(s1.insert(j, x).to_multiset() =~= s.to_multiset());
}

/// Children `ca` and `cb` are a position-wise mix of parents `pa` and `pb`
/// on the first `n` positions: at each position the pair of genes is either
/// kept or exchanged.
pub open spec fn genes_mixed(ca: Seq<char>, cb: Seq<char>, pa: Seq<char>, pb: Seq<char>, n: int) -> bool {
    forall|t: int|
        #![trigger ca[t]]
        0 <= t < n ==> ((ca[t] == pa[t] && cb[t] == pb[t]) || (ca[t] == pb[t] && cb[t] == pa[t]))
}

/// Ascending fitness order: earlier individuals are at least as fit (their
/// score is at most) as later ones.
pub open spec fn sorted_by_fitness(s: Seq<Individual>) -> bool {
    forall|i: int, j: int| 0 <= i <= j < s.len() ==> s[i].fitness <= s[j].fitness
}

/// The chromosomes of a sequence of individuals, in order.
pub open spec fn chromosomes_of(s: Seq<Individual>) -> Seq<Seq<char>> {
    s.map_values(|ind: Individual| ind.chromosome@)
}

/// A group of individuals evolving towards a target string.
pub struct Population {
    /// Probability, in `RATE_MAX`ths, for a gene to be randomized during
    /// mutation.
    pub mutation_rate: u32,
    /// Probability, in `RATE_MAX`ths, for a gene pair to be exchanged during
    /// crossover.
    pub crossover_rate: u32,
    /// Completed breeding cycles.
    pub generation: i32,
    /// Our actual members.
    pub individuals: Vec<Individual>,
    /// The goal: fitness of an individual is the edit distance from its
    /// chromosome to this string.
    pub target: Vec<char>,
}

impl Population {
    /// The common chromosome length of the members.
    pub open spec fn chrom_len(self) -> nat {
        self.individuals@[0].chromosome@.len()
    }

    /// Structural invariant: at least one member, all chromosomes of one
    /// length and over the alphabet, rates and sizes within bounds.
    pub open spec fn wf(self) -> bool {
        &&& self.individuals@.len() >= 1
        &&& forall|k: int|
            0 <= k < self.individuals@.len() ==> (#[trigger] self.individuals@[k]).chromosome@.len()
                == self.chrom_len()
        &&& forall|k: int|
            0 <= k < self.individuals@.len() ==> (#[trigger] self.individuals@[k]).all_printable()
        &&& self.mutation_rate <= RATE_MAX
        &&& self.crossover_rate <= RATE_MAX
        &&& self.generation >= 0
        &&& self.target@.len() <= i32::MAX
        &&& self.chrom_len() <= i32::MAX
    }

    /// Every member's fitness holds its edit distance to the target, and the
    /// members stand in ascending fitness order.
    pub open spec fn evaluated(self) -> bool {
        &&& sorted_by_fitness(self.individuals@)
        &&& forall|k: int|
            0 <= k < self.individuals@.len() ==> (#[trigger] self.individuals@[k]).fitness
                == edit_dist(self.individuals@[k].chromosome@, self.target@)
    }

    /// Create a population of `size` fresh random individuals, each with a
    /// chromosome of `chromosome_size` characters, with fitness not yet
    /// evaluated and the generation counter at 0.
    pub fn new(
        rng: &mut StdRng,
        size: usize,
        chromosome_size: usize,
        crossover: u32,
        mutation: u32,
        target: Vec<char>,
    ) -> (p: Population)
        requires
            size >= 1,
            chromosome_size >= 1,
            chromosome_size <= i32::MAX,
            target@.len() <= i32::MAX,
            crossover <= RATE_MAX,
            mutation <= RATE_MAX,
        ensures
            p.wf(),
            p.individuals@.len() == size,
            forall|k: int|
                0 <= k < size ==> (#[trigger] p.individuals@[k]).chromosome@.len()
                    == chromosome_size,
            forall|k: int| 0 <= k < size ==> (#[trigger] p.individuals@[k]).all_printable(),
            forall|k: int| 0 <= k < size ==> (#[trigger] p.individuals@[k]).fitness == 0,
            p.generation == 0,
            p.mutation_rate == mutation,
            p.crossover_rate == crossover,
            p.target == target,
            p.chrom_len() == chromosome_size,
    {
        let mut members: Vec<Individual> = Vec::new();
        let mut k: usize = 0;
        while k < size
            invariant
                k <= size,
                members@.len() == k,
                forall|t: int|
                    0 <= t < k ==> (#[trigger] members@[t]).chromosome@.len() == chromosome_size,
                forall|t: int| 0 <= t < k ==> (#[trigger] members@[t]).all_printable(),
                forall|t: int| 0 <= t < k ==> (#[trigger] members@[t]).fitness == 0,
            decreases size - k,
        {
            let ind = Individual::new_random(rng, chromosome_size);
            members.push(ind);
            k += 1;
        }
        Population {
            mutation_rate: mutation,
            crossover_rate: crossover,
            generation: 0,
            individuals: members,
            target,
        }
    }

    /// The individual at the head of the population: the fittest one
    /// whenever the population has been evaluated and sorted.
    pub fn fittest(&self) -> (ind: &Individual)
        requires
            self.individuals@.len() >= 1,
        ensures
            *ind == self.individuals@[0],
            self.evaluated() ==> forall|k: int|
                0 <= k < self.individuals@.len() ==> ind.fitness <= (
                #[trigger] self.individuals@[k]).fitness,
    {
        &self.individuals[0]
    }

    /// Mix two individuals of equal chromosome length: at each position,
    /// independently with probability `crossover_rate / RATE_MAX`, the two
    /// children exchange their parents' genes; otherwise each child inherits
    /// its own parent's gene. The parents are untouched and the children's
    /// fitness is unevaluated.
    pub fn crossover(&self, rng: &mut StdRng, parent_a: &Individual, parent_b: &Individual) -> (children: (
        Individual,
        Individual,
    ))
        requires
            self.crossover_rate <= RATE_MAX,
            parent_a.chromosome@.len() == parent_b.chromosome@.len(),
        ensures
            children.0.chromosome@.len() == parent_a.chromosome@.len(),
            children.1.chromosome@.len() == parent_b.chromosome@.len(),
            children.0.fitness == 0,
            children.1.fitness == 0,
            genes_mixed(
                children.0.chromosome@,
                children.1.chromosome@,
                parent_a.chromosome@,
                parent_b.chromosome@,
                parent_a.chromosome@.len() as int,
            ),
            self.crossover_rate == 0 ==> children.0.chromosome@ == parent_a.chromosome@
                && children.1.chromosome@ == parent_b.chromosome@,
            self.crossover_rate == RATE_MAX ==> children.0.chromosome@ == parent_b.chromosome@
                && children.1.chromosome@ == parent_a.chromosome@,
    {
        let len = parent_a.chromosome.len();
        let mut chromosome_a: Vec<char> = Vec::new();
        let mut chromosome_b: Vec<char> = Vec::new();
        let mut k: usize = 0;
        while k < len
            invariant
                k <= len,
                len == parent_a.chromosome@.len(),
                len == parent_b.chromosome@.len(),
                self.crossover_rate <= RATE_MAX,
                chromosome_a@.len() == k,
                chromosome_b@.len() == k,
                genes_mixed(
                    chromosome_a@,
                    chromosome_b@,
                    parent_a.chromosome@,
                    parent_b.chromosome@,
                    k as int,
                ),
                self.crossover_rate == 0 ==> forall|t: int|
                    0 <= t < k ==> #[trigger] chromosome_a@[t] == parent_a.chromosome@[t],
                self.crossover_rate == 0 ==> forall|t: int|
                    0 <= t < k ==> #[trigger] chromosome_b@[t] == parent_b.chromosome@[t],
                self.crossover_rate == RATE_MAX ==> forall|t: int|
                    0 <= t < k ==> #[trigger] chromosome_a@[t] == parent_b.chromosome@[t],
                self.crossover_rate == RATE_MAX ==> forall|t: int|
                    0 <= t < k ==> #[trigger] chromosome_b@[t] == parent_a.chromosome@[t],
            decreases len - k,
        {
            let gene_a = parent_a.chromosome[k];
            let gene_b = parent_b.chromosome[k];
            let ghost ca0 = chromosome_a@;
            let ghost cb0 = chromosome_b@;
            let draw = rand_below(rng, RATE_MAX);
            let exchange = draw < self.crossover_rate;
            if exchange {
                chromosome_a.push(gene_b);
                chromosome_b.push(gene_a);
            } else {
                chromosome_a.push(gene_a);
                chromosome_b.push(gene_b);
            }
            proof {
                assert(chromosome_a@.len() == k + 1);
                if exchange {
                    assert(chromosome_a@[k as int] == parent_b.chromosome@[k as int]);
                    assert(chromosome_b@[k as int] == parent_a.chromosome@[k as int]);
                } else {
                    assert(chromosome_a@[k as int] == parent_a.chromosome@[k as int]);
                    assert(chromosome_b@[k as int] == parent_b.chromosome@[k as int]);
                }
                assert(genes_mixed(
                    chromosome_a@,
                    chromosome_b@,
                    parent_a.chromosome@,
                    parent_b.chromosome@,
                    k + 1,
                )) by {
                    assert forall|t: int| #![trigger chromosome_a@[t]] 0 <= t < k + 1 implies ((
                    chromosome_a@[t] == parent_a.chromosome@[t] && chromosome_b@[t]
                        == parent_b.chromosome@[t]) || (chromosome_a@[t]
                        == parent_b.chromosome@[t] && chromosome_b@[t]
                        == parent_a.chromosome@[t])) by {
                        if t < k {
                            assert(chromosome_a@[t] == ca0[t]);
                            assert(chromosome_b@[t] == cb0[t]);
                        }
                    }
                }
                if self.crossover_rate == 0 {
                    assert(!exchange);
                    assert forall|t: int| 0 <= t < k + 1 implies (#[trigger] chromosome_a@[t])
                        == parent_a.chromosome@[t] && (#[trigger] chromosome_b@[t])
                        == parent_b.chromosome@[t] by {
                        if t < k {
                            assert(chromosome_a@[t] == ca0[t]);
                            assert(chromosome_b@[t] == cb0[t]);
                        }
                    }
                }
                if self.crossover_rate == RATE_MAX {
                    assert(exchange);
                    assert forall|t: int| 0 <= t < k + 1 implies (#[trigger] chromosome_a@[t])
                        == parent_b.chromosome@[t] && (#[trigger] chromosome_b@[t])
                        == parent_a.chromosome@[t] by {
                        if t < k {
                            assert(chromosome_a@[t] == ca0[t]);
                            assert(chromosome_b@[t] == cb0[t]);
                        }
                    }
                }
            }
            k += 1;
        }
        proof {
            if self.crossover_rate == 0 {
                assert(chromosome_a@ =~= parent_a.chromosome@);
                assert(chromosome_b@ =~= parent_b.chromosome@);
            }
            if self.crossover_rate == RATE_MAX {
                assert(chromosome_a@ =~= parent_b.chromosome@);
                assert(chromosome_b@ =~= parent_a.chromosome@);
            }
        }
        (Individual { chromosome: chromosome_a, fitness: 0 }, Individual {
            chromosome: chromosome_b,
            fitness: 0,
        })
    }

    /// Reorder the members ascending by fitness (insertion sort); the members
    /// themselves, and every other field, are untouched.
    fn sort_individuals(&mut self)
        ensures
            final(self).individuals@.len() == old(self).individuals@.len(),
            sorted_by_fitness(final(self).individuals@),
            final(self).individuals@.to_multiset() == old(self).individuals@.to_multiset(),
            chromosomes_of(final(self).individuals@).to_multiset() == chromosomes_of(
                old(self).individuals@,
            ).to_multiset(),
            final(self).generation == old(self).generation,
            final(self).mutation_rate == old(self).mutation_rate,
            final(self).crossover_rate == old(self).crossover_rate,
            final(self).target == old(self).target,
    {
        let ghost orig = self.individuals@;
        let mut i: usize = 1;
        while i < self.individuals.len()
            invariant
                1 <= i,
                self.individuals@.len() == orig.len(),
                forall|p: int, q: int|
                    0 <= p <= q < i && q < self.individuals@.len() ==> self.individuals@[p].fitness
                        <= self.individuals@[q].fitness,
                self.individuals@.to_multiset() == orig.to_multiset(),
                chromosomes_of(self.individuals@).to_multiset() == chromosomes_of(
                    orig,
                ).to_multiset(),
                self.generation == old(self).generation,
                self.mutation_rate == old(self).mutation_rate,
                self.crossover_rate == old(self).crossover_rate,
                self.target == old(self).target,
            decreases self.individuals@.len() - i,
        {
            let ghost pre = self.individuals@;
            let x = self.individuals.remove(i);
            let ghost s1 = self.individuals@;
            let mut j: usize = i;
            while j > 0 && self.individuals[j - 1].fitness > x.fitness
                invariant
                    j <= i,
                    i < s1.len() + 1,
                    self.individuals@ == s1,
                    forall|t: int| j <= t < i ==> s1[t].fitness > x.fitness,
                decreases j,
            {
                j -= 1;
            }
            self.individuals.insert(j, x);
            proof {
                assert(self.individuals@ == s1.insert(j as int, x));
                lemma_remove_insert_multiset(pre, i as int, j as int);
                assert(chromosomes_of(s1) =~= chromosomes_of(pre).remove(i as int));
                assert(chromosomes_of(s1.insert(j as int, x)) =~= chromosomes_of(s1).insert(
                    j as int,
                    x.chromosome@,
                ));
                assert(chromosomes_of(pre)[i as int] == x.chromosome@);
                lemma_remove_insert_multiset(chromosomes_of(pre), i as int, j as int);
                // the prefix of length i + 1 is sorted again
                assert forall|p: int, q: int|
                    0 <= p <= q < i + 1 && q < self.individuals@.len() implies self.individuals@[p].fitness
                    <= self.individuals@[q].fitness by {
                    let n = self.individuals@;
                    if q == j {
                        if p < j {
                            assert(n[p] == s1[p]);
                            if j > 0 {
                                assert(s1[p].fitness <= s1[j - 1].fitness);
                            }
                        }
                    } else if p == j {
                        assert(n[q] == s1[q - 1]);
                        assert(j <= q - 1 < i);
                    } else if p < j && q > j {
                        assert(n[p] == s1[p]);
                        assert(n[q] == s1[q - 1]);
                    }
                }
            }
            i += 1;
        }
    }

    /// Evaluate every member's fitness as the edit distance from its
    /// chromosome to the target, then sort the members ascending by fitness:
    /// the head of the population becomes a closest match. The chromosomes
    /// are the same as before, merely rescored and reordered.
    pub fn compute_fitness(&mut self)
        requires
            old(self).wf(),
        ensures
            final(self).wf(),
            final(self).evaluated(),
            final(self).individuals@.len() == old(self).individuals@.len(),
            chromosomes_of(final(self).individuals@).to_multiset() == chromosomes_of(
                old(self).individuals@,
            ).to_multiset(),
            final(self).generation == old(self).generation,
            final(self).mutation_rate == old(self).mutation_rate,
            final(self).crossover_rate == old(self).crossover_rate,
            final(self).target == old(self).target,
            final(self).chrom_len() == old(self).chrom_len(),
    {
        let n = self.individuals.len();
        let mut k: usize = 0;
        while k < n
            invariant
                k <= n,
                n == self.individuals@.len(),
                old(self).wf(),
                self.individuals@.len() == old(self).individuals@.len(),
                forall|t: int|
                    0 <= t < n ==> (#[trigger] self.individuals@[t]).chromosome@ == old(
                        self,
                    ).individuals@[t].chromosome@,
                forall|t: int|
                    0 <= t < k ==> (#[trigger] self.individuals@[t]).fitness == edit_dist(
                        self.individuals@[t].chromosome@,
                        self.target@,
                    ),
                self.generation == old(self).generation,
                self.mutation_rate == old(self).mutation_rate,
                self.crossover_rate == old(self).crossover_rate,
                self.target == old(self).target,
            decreases n - k,
        {
            proof {
                lemma_edit_dist_le_max(self.individuals@[k as int].chromosome@, self.target@);
                assert(self.individuals@[k as int].chromosome@.len() == old(self).chrom_len());
            }
            let d = char_distance(&self.individuals[k].chromosome, &self.target);
            self.individuals[k].fitness = d as i32;
            k += 1;
        }
        let ghost scored = self.individuals@;
        proof {
            assert(chromosomes_of(scored) =~= chromosomes_of(old(self).individuals@));
        }
        self.sort_individuals();
        proof {
            broadcast use vstd::seq_lib::group_to_multiset_ensures;

            let post = self.individuals@;
            assert forall|k: int| 0 <= k < post.len() implies {
                &&& (#[trigger] post[k]).fitness == edit_dist(post[k].chromosome@, self.target@)
                &&& post[k].chromosome@.len() == old(self).chrom_len()
                &&& post[k].all_printable()
            } by {
                assert(post.contains(post[k]));
                assert(post.to_multiset().count(post[k]) > 0);
                assert(scored.to_multiset().count(post[k]) > 0);
                assert(scored.contains(post[k]));
                let t = choose|t: int| 0 <= t < scored.len() && scored[t] == post[k];
                assert(scored[t].fitness == edit_dist(scored[t].chromosome@, self.target@));
                assert(scored[t].chromosome@ == old(self).individuals@[t].chromosome@);
                assert(old(self).individuals@[t].all_printable());
            }
        }
    }

    /// One full breeding cycle: keep the best 80% (integer floor) of the
    /// fitness-sorted population as breeding stock, cross consecutive pairs
    /// of survivors (an odd leftover is dropped), mutate every child, refill
    /// with fresh random individuals until the population is back at its
    /// size, re-evaluate and sort, and count the completed generation.
    pub fn breed(&mut self, rng: &mut StdRng)
        requires
            old(self).wf(),
            old(self).individuals@.len() >= 2,
            sorted_by_fitness(old(self).individuals@),
            old(self).generation < i32::MAX,
        ensures
            final(self).wf(),
            final(self).evaluated(),
            final(self).individuals@.len() == old(self).individuals@.len(),
            final(self).generation == old(self).generation + 1,
            final(self).chrom_len() == old(self).chrom_len(),
            final(self).mutation_rate == old(self).mutation_rate,
            final(self).crossover_rate == old(self).crossover_rate,
            final(self).target == old(self).target,
    {
        let ghost len_before = old(self).chrom_len();
        let pop_size = self.individuals.len();
        let quotient = pop_size / 5;
        let remainder = pop_size % 5;
        let keep: usize = 4 * quotient + (4 * remainder) / 5;
        proof {
            assert(keep == (4 * pop_size) / 5 && 1 <= keep <= pop_size) by (nonlinear_arith)
                requires
                    quotient == pop_size / 5,
                    remainder == pop_size % 5,
                    keep == 4 * quotient + (4 * remainder) / 5,
                    pop_size >= 2,
            ;
        }
        self.individuals.truncate(keep);

        let mut parents: Vec<Individual> = Vec::new();
        let mut k: usize = 0;
        while k < keep
            invariant
                k <= keep,
                keep == self.individuals@.len(),
                parents@.len() == k,
                forall|t: int|
                    0 <= t < keep ==> (#[trigger] self.individuals@[t]).chromosome@.len()
                        == len_before,
                forall|t: int|
                    0 <= t < keep ==> (#[trigger] self.individuals@[t]).all_printable(),
                forall|t: int|
                    0 <= t < k ==> (#[trigger] parents@[t]).chromosome@
                        == self.individuals@[t].chromosome@,
                *self == (Population { individuals: self.individuals, ..*old(self) }),
            decreases keep - k,
        {
            let p = self.individuals[k].duplicate();
            parents.push(p);
            k += 1;
        }
        proof {
            assert(parents@[0].chromosome@.len() == len_before);
        }
        let chromosome_size = parents[0].chromosome.len();

        self.individuals.clear();
        let mut k: usize = 0;
        while k + 1 < parents.len()
            invariant
                k % 2 == 0,
                k <= parents@.len(),
                parents@.len() == keep,
                keep <= pop_size,
                self.individuals@.len() == k,
                self.crossover_rate <= RATE_MAX,
                self.mutation_rate <= RATE_MAX,
                chromosome_size == len_before,
                forall|t: int|
                    0 <= t < keep ==> (#[trigger] parents@[t]).chromosome@.len() == len_before,
                forall|t: int| 0 <= t < keep ==> (#[trigger] parents@[t]).all_printable(),
                forall|t: int|
                    0 <= t < k ==> (#[trigger] self.individuals@[t]).chromosome@.len()
                        == len_before,
                forall|t: int|
                    0 <= t < k ==> (#[trigger] self.individuals@[t]).all_printable(),
                *self == (Population { individuals: self.individuals, ..*old(self) }),
            decreases parents@.len() - k,
        {
            let pair = self.crossover(rng, &parents[k], &parents[k + 1]);
            let mut child_a = pair.0;
            let mut child_b = pair.1;
            let ghost cross_a = child_a.chromosome@;
            let ghost cross_b = child_b.chromosome@;
            child_a.mutate(rng, self.mutation_rate);
            child_b.mutate(rng, self.mutation_rate);
            proof {
                assert(parents@[k as int].all_printable());
                assert(parents@[k + 1].all_printable());
                assert forall|t: int| 0 <= t < child_a.chromosome@.len() implies printable(
                    #[trigger] child_a.chromosome@[t],
                ) by {
                    assert(printable(parents@[k as int].chromosome@[t]));
                    assert(printable(parents@[k + 1].chromosome@[t]));
                    assert(cross_a[t] == parents@[k as int].chromosome@[t] || cross_a[t]
                        == parents@[k + 1].chromosome@[t]);
                }
                assert forall|t: int| 0 <= t < child_b.chromosome@.len() implies printable(
                    #[trigger] child_b.chromosome@[t],
                ) by {
                    assert(printable(parents@[k as int].chromosome@[t]));
                    assert(printable(parents@[k + 1].chromosome@[t]));
                    assert(cross_a[t] == parents@[k as int].chromosome@[t] || cross_a[t]
                        == parents@[k + 1].chromosome@[t]);
                    assert(cross_b[t] == parents@[k as int].chromosome@[t] || cross_b[t]
                        == parents@[k + 1].chromosome@[t]);
                }
            }
            self.individuals.push(child_a);
            self.individuals.push(child_b);
            k += 2;
        }

        while self.individuals.len() < pop_size
            invariant
                self.individuals@.len() <= pop_size,
                chromosome_size == len_before,
                forall|t: int|
                    0 <= t < self.individuals@.len() ==> (#[trigger] self.individuals@[t]).chromosome@.len()
                        == len_before,
                forall|t: int|
                    0 <= t < self.individuals@.len() ==> (
                    #[trigger] self.individuals@[t]).all_printable(),
                *self == (Population { individuals: self.individuals, ..*old(self) }),
            decreases pop_size - self.individuals@.len(),
        {
            let ind = Individual::new_random(rng, chromosome_size);
            self.individuals.push(ind);
        }

        proof {
            assert(self.individuals@.len() == pop_size);
            assert(self.chrom_len() == len_before);
            assert(self.wf());
        }
        self.compute_fitness();
        self.generation = self.generation + 1;
    }
}

} // verus!
