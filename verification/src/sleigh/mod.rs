pub mod address;
pub mod seqnum;
pub mod opcode;
pub mod varnode;
pub mod op;
pub mod instruction;
