//! A library for the "locky puzzle": a cube variant whose faces carry
//! arrowed stickers that can forbid certain turns.

mod heuristic;
mod input;
mod move_gen;
mod moves;
mod multi_step;
mod proj;
mod scramble;
mod solve;
mod state;

pub use heuristic::AggregateHeuristic;
pub use heuristic::Heuristic;
pub use heuristic::MaxHeuristic;
pub use heuristic::NopHeuristic;
pub use heuristic::ProjHeuristic;
pub use heuristic::bfs_closure;
pub use heuristic::entry_closed;
pub use heuristic::entry_key;
pub use heuristic::generated_table;
pub use heuristic::reps_ok;
pub use heuristic::scan_entry;
pub use heuristic::key_reached;
pub use heuristic::lemma_max_lower_bound_admissible;
pub use heuristic::max_bound;
pub use heuristic::max_lower_bound;
pub use heuristic::opt_bound;

pub use input::face_row_applied;
pub use input::parse_sticker_row;
pub use input::row_scan;
pub use input::set_face_row;
pub use input::spec_parse_row;
pub use input::validate_state;

pub use move_gen::Axis;
pub use move_gen::AxisState;
pub use move_gen::MoveGen;
pub use move_gen::MoveGenIter;
pub use move_gen::all_moves;
pub use move_gen::axis_of;
pub use move_gen::decompose_face;
pub use move_gen::gen_after;
pub use move_gen::gen_allows;
pub use move_gen::initial_gen;
pub use move_gen::is_primary;
pub use move_gen::lemma_move_index;
pub use move_gen::lemma_next_allowed;
pub use move_gen::move_index;
pub use move_gen::next_allowed;

pub use moves::Algo;
pub use moves::Move;
pub use moves::ParseMoveError;
pub use moves::Turns;
pub use moves::algo_applied;
pub use moves::algo_text;
pub use moves::cw_src;
pub use moves::face_char;
pub use moves::is_space;
pub use moves::lemma_algo_applied_concat;
pub use moves::lemma_algo_applied_len;
pub use moves::lemma_algo_applied_push;
pub use moves::lemma_algo_text_push;
pub use moves::lemma_cw_order_four;
pub use moves::lemma_cw_src_in_range;
pub use moves::lemma_move_reversible;
pub use moves::lemma_parse_format_roundtrip;
pub use moves::lemma_token_prefix_len;
pub use moves::move_applied;
pub use moves::move_inverse;
pub use moves::move_src;
pub use moves::move_token;
pub use moves::parse_tokens;
pub use moves::spec_char_face;
pub use moves::spec_parse_algo;
pub use moves::spec_parse_move;
pub use moves::spec_tokens;
pub use moves::token_prefix;

pub use multi_step::CoStageHeuristic;
pub use multi_step::CornerStageHeuristic;
pub use multi_step::MultiStep;
pub use multi_step::MultiStepError;
pub use multi_step::parts_moves;

pub use proj::ArrowAxisProj;
pub use proj::CoFbProj;
pub use proj::CoRlProj;
pub use proj::CoUdProj;
pub use proj::CornerFbProj;
pub use proj::CornerProj;
pub use proj::CornerRlProj;
pub use proj::CornerUdProj;
pub use proj::KeyProj;
pub use proj::LockProj;
pub use proj::PairProj;
pub use proj::Proj;
pub use proj::arrow_code;
pub use proj::axes_bits;
pub use proj::axes_byte;
pub use proj::axis_code;
pub use proj::co_bits;
pub use proj::co_code;
pub use proj::corner_axis_bit;
pub use proj::corner_axis_bits;
pub use proj::corner_bits;
pub use proj::corner_byte;
pub use proj::corner_slots;
pub use proj::dir_code;
pub use proj::face_code;
pub use proj::lemma_project_deterministic;
pub use proj::lock_bits;
pub use proj::lock_byte;

pub use scramble::exists_scramble;
pub use scramble::scramble;

pub use solve::end_gen;
pub use solve::gen_path_ok;
pub use solve::lemma_gen_path_ok_moves_ok;
pub use solve::lemma_gen_path_push;
pub use solve::lemma_moves_ok_concat;
pub use solve::moves_ok;
pub use solve::proj_solve;
pub use solve::proj_solve_serial;
pub use solve::proj_solved;
pub use solve::root_proj_search_ok;
pub use solve::root_search_ok;
pub use solve::solve;
pub use solve::solve_serial;
pub use solve::spec_proj_search;
pub use solve::spec_search;

pub use state::Direction;
pub use state::Face;
pub use state::State;
pub use state::Sticker;
pub use state::arrow_slot;
pub use state::face_dirs;
pub use state::face_index;
pub use state::face_of;
pub use state::lemma_lock_multiset;
pub use state::lemma_solved_is_solved;
pub use state::lemma_solved_unlocked;
pub use state::native_direction;
pub use state::solved_seq;
pub use state::spec_is_solved;
pub use state::spec_locked;
pub use state::state_text;
pub use state::state_text_upto;
pub use state::sticker_sep;
pub use state::sticker_text;
