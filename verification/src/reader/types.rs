//! Record types for well-known JFR classes, for callers that want typed
//! views instead of navigating value trees by hand.
//!
//! Strings in JFR can always be null, so text fields are optional.

use vstd::prelude::*;

verus! {

/// `java.lang.Thread`.
#[derive(Debug)]
pub struct JdkThread {
    pub os_name: Option<String>,
    pub os_thread_id: i64,
    pub java_name: Option<String>,
    pub java_thread_id: i64,
    pub group: Option<ThreadGroup>,
}

/// `jdk.types.ThreadGroup`; the parent edge can form cycles through the
/// constant pool, so it is both optional and boxed.
#[derive(Debug)]
pub struct ThreadGroup {
    pub parent: Option<Box<ThreadGroup>>,
    pub name: Option<String>,
}

/// `jdk.types.StackTrace`.
#[derive(Debug)]
pub struct StackTrace {
    pub truncated: bool,
    pub frames: Vec<Option<StackFrame>>,
}

/// `jdk.types.StackFrame`.
#[derive(Debug)]
pub struct StackFrame {
    pub method: Option<JdkMethod>,
    pub line_number: i32,
    pub bytecode_index: i32,
    pub frame_type: Option<FrameType>,
}

/// `jdk.types.FrameType`.
#[derive(Debug)]
pub struct FrameType {
    pub description: Option<String>,
}

/// `jdk.types.Method`.
#[derive(Debug)]
pub struct JdkMethod {
    pub class: Option<Class>,
    pub name: Option<Symbol>,
    pub descriptor: Option<Symbol>,
    pub modifiers: i32,
    pub hidden: bool,
}

/// `jdk.types.Symbol`.
#[derive(Debug)]
pub struct Symbol {
    pub string: Option<String>,
}

/// `java.lang.Class`.
#[derive(Debug)]
pub struct Class {
    pub class_loader: Option<ClassLoader>,
    pub name: Option<Symbol>,
    pub package: Option<Package>,
    pub modifiers: i32,
    pub hidden: bool,
}

/// `jdk.types.Package`.
#[derive(Debug)]
pub struct Package {
    pub name: Option<Symbol>,
    pub module: Option<Module>,
    pub exported: bool,
}

/// `jdk.types.Module`.
#[derive(Debug)]
pub struct Module {
    pub name: Option<Symbol>,
    pub version: Option<Symbol>,
    pub location: Option<Symbol>,
    pub class_loader: Option<ClassLoader>,
}

/// `jdk.types.ClassLoader`; the class edge can form cycles through the
/// constant pool.
#[derive(Debug)]
pub struct ClassLoader {
    pub class: Option<Box<Class>>,
    pub name: Option<Symbol>,
}

/// `jdk.types.ThreadState`.
#[derive(Debug)]
pub struct ThreadState {
    pub name: Option<String>,
}

/// `jdk.ExecutionSample`.
#[derive(Debug)]
pub struct ExecutionSample {
    pub sampled_thread: Option<JdkThread>,
    pub stack_trace: Option<StackTrace>,
    pub state: Option<ThreadState>,
}

} // verus!
