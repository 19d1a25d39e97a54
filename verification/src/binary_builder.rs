//! A builder over a borrowed module that emits the WebAssembly binary
//! section by section, in the fixed section order, producing exactly the
//! bytes [`crate::codegen::encode_module`] specifies.

use vstd::prelude::*;
use crate::wasm::{WasmModule, module_wf};
use crate::codegen::{
    encode_module, encode_section, magic_and_version, type_section_body, import_section_body,
    function_section_body, memory_section_body, global_section_body, export_section_body,
    code_section_body, data_section_body, write_magic_and_version, write_section,
    write_type_section, write_import_section, write_function_section, write_memory_section,
    write_global_section, write_export_section, write_code_section, write_data_section,
};

verus! {

/// Accumulates the binary for one module: created empty by
/// [`BinaryBuilder::new`], filled and handed out by
/// [`BinaryBuilder::build`].
pub struct BinaryBuilder<'a> {
    module: &'a WasmModule,
    data: Vec<u8>,
}

impl<'a> BinaryBuilder<'a> {
    /// The module this builder serializes.
    pub closed spec fn spec_module(self) -> WasmModule {
        *self.module
    }

    /// The bytes accumulated so far.
    pub closed spec fn spec_data(self) -> Seq<u8> {
        self.data@
    }

    /// Prepares an empty builder over a finalized module.
    pub fn new(module: &'a WasmModule) -> (r: Self)
        ensures
            r.spec_module() == *module,
            r.spec_data() == Seq::<u8>::empty(),
    {
        let data = Vec::new();
        BinaryBuilder { module, data }
    }

    /// Emits every part of the module in order and returns the binary.
    pub fn build(self) -> (r: Vec<u8>)
        requires
            module_wf(self.spec_module()),
        ensures
            r@ == self.spec_data() + encode_module(self.spec_module()),
    {
        let ghost orig_data = self.data@;
        let ghost m = *self.module;
        let mut this = self;
        this.emit_magic_and_version();
        this.emit_type_section();
        this.emit_import_section();
        this.emit_func_section();
        this.emit_memory_section();
        this.emit_global_section();
        this.emit_export_section();
        this.emit_code_section();
        this.emit_data_section();
        proof {
            assert(this.data@ =~= orig_data + encode_module(m));
        }
        this.data
    }

    fn emit_magic_and_version(&mut self)
        ensures
            final(self).module == old(self).module,
            final(self).data@ == old(self).data@ + magic_and_version(),
    {
        write_magic_and_version(&mut self.data);
    }

    fn emit_type_section(&mut self)
        ensures
            final(self).module == old(self).module,
            final(self).data@ == old(self).data@ + encode_section(
                0x01,
                type_section_body(*old(self).module),
            ),
    {
        let module = self.module;
        let mut section: Vec<u8> = Vec::new();
        write_type_section(&mut section, module);
        write_section(&mut self.data, &mut section, 0x01);
    }

    fn emit_import_section(&mut self)
        ensures
            final(self).module == old(self).module,
            final(self).data@ == old(self).data@ + encode_section(
                0x02,
                import_section_body(*old(self).module),
            ),
    {
        let module = self.module;
        let mut section: Vec<u8> = Vec::new();
        write_import_section(&mut section, module);
        write_section(&mut self.data, &mut section, 0x02);
    }

    fn emit_func_section(&mut self)
        ensures
            final(self).module == old(self).module,
            final(self).data@ == old(self).data@ + encode_section(
                0x03,
                function_section_body(*old(self).module),
            ),
    {
        let module = self.module;
        let mut section: Vec<u8> = Vec::new();
        write_function_section(&mut section, module);
        write_section(&mut self.data, &mut section, 0x03);
    }

    fn emit_memory_section(&mut self)
        ensures
            final(self).module == old(self).module,
            final(self).data@ == old(self).data@ + encode_section(
                0x05,
                memory_section_body(*old(self).module),
            ),
    {
        let module = self.module;
        let mut section: Vec<u8> = Vec::new();
        write_memory_section(&mut section, module);
        write_section(&mut self.data, &mut section, 0x05);
    }

    fn emit_global_section(&mut self)
        requires
            module_wf(*old(self).module),
        ensures
            final(self).module == old(self).module,
            final(self).data@ == old(self).data@ + encode_section(
                0x06,
                global_section_body(*old(self).module),
            ),
    {
        let module = self.module;
        let mut section: Vec<u8> = Vec::new();
        write_global_section(&mut section, module);
        write_section(&mut self.data, &mut section, 0x06);
    }

    fn emit_export_section(&mut self)
        ensures
            final(self).module == old(self).module,
            final(self).data@ == old(self).data@ + encode_section(
                0x07,
                export_section_body(*old(self).module),
            ),
    {
        let module = self.module;
        let mut section: Vec<u8> = Vec::new();
        write_export_section(&mut section, module);
        write_section(&mut self.data, &mut section, 0x07);
    }

    fn emit_code_section(&mut self)
        requires
            module_wf(*old(self).module),
        ensures
            final(self).module == old(self).module,
            final(self).data@ == old(self).data@ + encode_section(
                0x0a,
                code_section_body(*old(self).module),
            ),
    {
        let module = self.module;
        let mut section: Vec<u8> = Vec::new();
        write_code_section(&mut section, module);
        write_section(&mut self.data, &mut section, 0x0a);
    }

    fn emit_data_section(&mut self)
        requires
            module_wf(*old(self).module),
        ensures
            final(self).module == old(self).module,
            final(self).data@ == old(self).data@ + encode_section(
                0x0b,
                data_section_body(*old(self).module),
            ),
    {
        let module = self.module;
        let mut section: Vec<u8> = Vec::new();
        write_data_section(&mut section, module);
        write_section(&mut self.data, &mut section, 0x0b);
    }
}

} // verus!
