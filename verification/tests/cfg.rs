use gnss_rtk::cfg::{
    default_earth_rot, default_interp, default_iono, default_max_sv,
    default_relativistic_clock_bias, default_relativistic_path_range, default_smoothing,
    default_sv_apc, default_sv_clock, default_sv_tgd, default_timescale, default_tropo, Config,
    FilterOpts, LoopExitCriteria, Method, Modeling, Positioning, SolverOpts,
};
use gnss_rtk::cfg::solver::{default_model_update, default_postfit_kf};
use gnss_rtk::navigation::{Filter, PVTSolutionType};
use gnss_rtk::scalar::Scalar;
use gnss_rtk::time::TimeScale;

fn value(s: Scalar) -> f64 {
    f64::from_bits(s.to_bits())
}

#[test]
fn defaults() {
    assert_eq!(default_timescale(), TimeScale::GPST);
    assert_eq!(default_interp(), 11);
    assert_eq!(default_max_sv(), 10);
    assert!(!default_smoothing());
    assert!(default_sv_clock());
    assert!(default_sv_tgd());
    assert!(default_iono());
    assert!(default_tropo());
    assert!(default_earth_rot());
    assert!(default_relativistic_clock_bias());
    assert!(!default_relativistic_path_range());
    assert!(!default_sv_apc());
    assert!(default_model_update());
    assert!(!default_postfit_kf());
    assert_eq!(Method::default(), Method::SPP);
    assert_eq!(Positioning::default(), Positioning::Static);
    assert_eq!(Filter::default(), Filter::LSQ);
    assert_eq!(LoopExitCriteria::default(), LoopExitCriteria::Iteration(10));
    assert_eq!(PVTSolutionType::default(), PVTSolutionType::PositionVelocityTime);
}

#[test]
fn standard_modeling_leaves_out_apc_and_path_range() {
    let m = Modeling::default();
    assert!(m.sv_clock_bias && m.sv_total_group_delay && m.relativistic_clock_bias);
    assert!(m.tropo_delay && m.iono_delay && m.earth_rotation);
    assert!(!m.sv_apc && !m.relativistic_path_range);
    assert_eq!(Modeling::preset(Method::PPP, Filter::Kalman), m);
    assert_eq!(Modeling::preset(Method::SPP, Filter::Bypass), m);
}

#[test]
fn solver_options() {
    let opts = SolverOpts::default();
    assert_eq!(opts.filter, Filter::LSQ);
    assert_eq!(opts.gdop_threshold, None);
    assert_eq!(opts.tdop_threshold, None);
    assert_eq!(opts.innovation_threshold, None);
    assert!(!opts.postfit_kf);
    assert_eq!(opts.filter_opts, FilterOpts::default());
    assert_eq!(opts.filter_opts.weight_matrix, None);
    assert!(opts.filter_opts.model_update);
    assert_eq!(opts.filter_opts.loop_exit, LoopExitCriteria::Iteration(10));
}

#[test]
fn static_preset_for_single_point_positioning() {
    let cfg = Config::preset(Method::SPP);
    assert_eq!(cfg.method, Method::SPP);
    assert_eq!(cfg.timescale, TimeScale::GPST);
    assert_eq!(cfg.sol_type, PVTSolutionType::PositionVelocityTime);
    assert_eq!(cfg.interp_order, 11);
    assert_eq!(cfg.max_sv, 10);
    assert_eq!(cfg.min_sv_elev.map(value), Some(15.0));
    assert_eq!(cfg.min_snr.map(value), Some(30.0));
    assert_eq!(cfg.min_sv_sunlight_rate, None);
    assert_eq!(cfg.min_sv_azim, None);
    assert_eq!(cfg.max_sv_azim, None);
    assert_eq!(value(cfg.max_tropo_bias), 30.0);
    assert_eq!(value(cfg.max_iono_bias), 10.0);
    assert_eq!(cfg.fixed_altitude, None);
    assert_eq!(cfg.arp_enu, None);
    assert_eq!(cfg.externalref_delay, None);
    assert!(cfg.int_delay.is_empty());
    assert!(!cfg.code_smoothing);
    assert_eq!(cfg.modeling, Modeling::default());
    assert_eq!(cfg.solver, SolverOpts::default());
}

#[test]
fn static_preset_for_precise_point_positioning() {
    let spp = Config::preset(Method::SPP);
    let ppp = Config::preset(Method::PPP);
    assert_eq!(ppp.method, Method::PPP);
    assert_eq!(ppp.min_sv_sunlight_rate.map(value), Some(0.75));
    assert_eq!(ppp.interp_order, 11);
    let mut same = ppp.clone();
    same.method = Method::SPP;
    same.min_sv_sunlight_rate = None;
    assert_eq!(same, spp);
    let mut cpp = Config::preset(Method::CPP);
    assert_eq!(cpp.method, Method::CPP);
    cpp.method = Method::SPP;
    assert_eq!(cpp, spp);
}

#[test]
fn method_names() {
    assert_eq!(Method::SPP.name(), "SPP");
    assert_eq!(Method::CPP.name(), "CPP");
    assert_eq!(Method::PPP.name(), "PPP");
}
