//! A feed-forward neural genome learning XOR end to end.

use radiate::genome::Genome;
use radiate::population::{Config, Population};
use radiate::problem::Problem;

const XOR_CASES: [(f32, f32, f32); 4] =
    [(0.0, 0.0, 0.0), (1.0, 1.0, 0.0), (1.0, 0.0, 1.0), (0.0, 1.0, 1.0)];

/// A tiny 2-3-1 feed-forward network: thirteen weights.
#[derive(Clone, Debug, PartialEq)]
struct NetGenome {
    w: [f32; 13],
}

impl NetGenome {
    fn forward(&self, x: f32, y: f32) -> f32 {
        let w = &self.w;
        let mut o = w[12];
        for h in 0..3 {
            let a = (w[3 * h] * x + w[3 * h + 1] * y + w[3 * h + 2]).tanh();
            o += w[9 + h] * a;
        }
        1.0 / (1.0 + (-o).exp())
    }

    fn sse(&self) -> f32 {
        XOR_CASES
            .iter()
            .map(|&(x, y, t)| {
                let o = self.forward(x, y);
                (o - t) * (o - t)
            })
            .sum()
    }
}

/// Environment carrying the mutation noise source.
#[derive(Clone)]
struct NetEnv {
    state: u64,
}

impl Default for NetEnv {
    fn default() -> Self {
        NetEnv { state: 0x1234_5678_9abc_def0 }
    }
}

impl NetEnv {
    /// A pseudo-random value in [-1, 1].
    fn noise(&mut self) -> f32 {
        self.state = self.state.wrapping_mul(6364136223846793005).wrapping_add(1442695040888963407);
        let bits = (self.state >> 32) as u32;
        (bits as f32 / 2147483648.0) - 1.0
    }
}

impl radiate::environment::Envionment for NetEnv {}

impl Genome<NetGenome, NetEnv> for NetGenome {
    fn crossover(
        one: &NetGenome,
        two: &NetGenome,
        env: &mut NetEnv,
        _crossover_rate: u32,
    ) -> Option<NetGenome> {
        let mut w = [0.0f32; 13];
        for i in 0..13 {
            w[i] = if env.noise() > 0.0 { one.w[i] } else { two.w[i] };
            let roll = env.noise();
            if roll > 0.5 {
                w[i] += env.noise() * 0.5;
            } else if roll < -0.95 {
                w[i] = env.noise() * 2.0;
            }
        }
        // one focused step on a single weight
        let k = ((env.noise() + 1.0) * 6.5) as usize % 13;
        w[k] += env.noise() * 1.5;
        Some(NetGenome { w })
    }

    fn distance(one: &NetGenome, two: &NetGenome, _env: &mut NetEnv) -> u32 {
        let d: f32 = one.w.iter().zip(two.w.iter()).map(|(a, b)| (a - b).abs()).sum();
        (d * 10.0) as u32
    }

    fn base(env: &mut NetEnv) -> NetGenome {
        let mut w = [0.0f32; 13];
        for i in 0..13 {
            w[i] = env.noise() * 2.0;
        }
        NetGenome { w }
    }
}

struct XorProblem;

impl Problem<NetGenome> for XorProblem {
    fn empty() -> Self {
        XorProblem
    }

    fn solve(&self, member: &mut NetGenome) -> u32 {
        let fit = 4.0 - member.sse();
        (fit * 1000.0) as u32
    }
}

#[test]
fn xor_is_learned_well_enough() {
    let mut pop: Population<NetGenome, NetEnv, XorProblem> = Population::new()
        .size(100)
        .configure(Config {
            inbreed_rate: 0,
            crossover_rate: 500,
            distance: 10000,
            species_target: 0,
        })
        .parental_criteria(radiate::survival::ParentalCriteria::BestInSpecies)
        .populate_base()
        .impose(XorProblem);
    let (top, _env) = pop.run(|_g, _fit, iter| iter == 200).unwrap();
    let mut close = 0;
    for &(x, y, t) in XOR_CASES.iter() {
        let o = top.forward(x, y);
        if (o - t).abs() < 0.2 {
            close += 1;
        }
    }
    assert!(close >= 3, "the trained network misses too many XOR cases: {close}/4");
}
