pub mod before_move;
